//! Core data pipeline of a live TDS (total dissolved solids) telemetry
//! dashboard: a bounded, deduplicating history window of sensor readings,
//! a quality classifier over ppm bands, a two-state alarm machine, a
//! chart-series projection, and the per-tick polling discipline that ties
//! them together.
//!
//! Reading values are carried as fixed-point integers in milli-ppm
//! (one thousandth of a part per million), so that the band boundaries
//! and comparisons are exact.

use vstd::prelude::*;

mod alarm;
mod chart;
mod classify;
mod history;
mod parse;
mod poller;
mod reading;

pub use alarm::AlarmState;
pub use alarm::AudioCommand;
pub use alarm::alarm_step;
pub use alarm::lemma_alarm_laws;
pub use alarm::spec_audio_command;
pub use alarm::spec_transition;
pub use chart::ChartPoint;
pub use chart::ChartRegistry;
pub use chart::ChartSeries;
pub use chart::RenderAction;
pub use chart::SECONDS_PER_DAY;
pub use chart::project;
pub use chart::second_of_day;
pub use chart::spec_digit_char;
pub use chart::spec_local_instant;
pub use chart::spec_render_action;
pub use chart::spec_second_of_day;
pub use chart::spec_time_label;
pub use chart::time_label;
pub use classify::ACCEPTABLE_MIN_MPPM;
pub use classify::BandSpec;
pub use classify::BandTable;
pub use classify::GOOD_MIN_MPPM;
pub use classify::POOR_MIN_MPPM;
pub use classify::QualityBand;
pub use classify::UNACCEPTABLE_MIN_MPPM;
pub use classify::classify;
pub use classify::color;
pub use classify::label;
pub use classify::spec_classify;
pub use classify::spec_color;
pub use classify::spec_label;
pub use history::HistoryWindow;
pub use history::WINDOW_CAPACITY;
pub use history::bounded;
pub use history::chronological;
pub use history::keep_last;
pub use history::lemma_append_all_bounded;
pub use history::lemma_append_all_keeps_most_recent;
pub use history::lemma_dedup_chrono_wf;
pub use history::lemma_refresh_is_noop;
pub use history::lemma_sort_chrono_sorted;
pub use history::sorted_by_timestamp;
pub use history::spec_append;
pub use history::spec_append_all;
pub use history::spec_dedup_chrono;
pub use history::spec_hydrate;
pub use history::spec_insert_chrono;
pub use history::spec_sort_chrono;
pub use history::window_wf;
pub use parse::ParseError;
pub use parse::parse_history;
pub use parse::parse_reading;
pub use parse::spec_parse_history;
pub use parse::spec_parse_reading;
pub use poller::FetchOutcome;
pub use poller::Session;
pub use poller::TickOutput;
pub use poller::spec_tick_band;
pub use poller::spec_tick_window;
pub use reading::Reading;
