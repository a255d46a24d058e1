use tds_monitor::{classify, color, label, BandTable, QualityBand};

#[test]
fn zero_is_disconnected() {
    assert_eq!(classify(0), QualityBand::Disconnected);
}

#[test]
fn negative_is_invalid() {
    assert_eq!(classify(-5_000), QualityBand::Invalid);
    assert_eq!(classify(-1), QualityBand::Invalid);
}

#[test]
fn just_below_good_is_excellent() {
    assert_eq!(classify(299_999), QualityBand::Excellent);
    assert_eq!(classify(1), QualityBand::Excellent);
}

#[test]
fn good_band_cut_points() {
    assert_eq!(classify(300_000), QualityBand::Good);
    assert_eq!(classify(599_999), QualityBand::Good);
}

#[test]
fn acceptable_band_cut_points() {
    assert_eq!(classify(600_000), QualityBand::Acceptable);
    assert_eq!(classify(899_999), QualityBand::Acceptable);
}

#[test]
fn poor_band_cut_points() {
    assert_eq!(classify(900_000), QualityBand::Poor);
    assert_eq!(classify(1_199_999), QualityBand::Poor);
}

#[test]
fn unacceptable_from_twelve_hundred() {
    assert_eq!(classify(1_200_000), QualityBand::Unacceptable);
    assert_eq!(classify(9_000_000), QualityBand::Unacceptable);
}

#[test]
fn labels_and_colors() {
    assert_eq!(label(QualityBand::Disconnected), "Desconectado");
    assert_eq!(label(QualityBand::Excellent), "Excelente");
    assert_eq!(label(QualityBand::Good), "Bom");
    assert_eq!(label(QualityBand::Acceptable), "Aceitavel");
    assert_eq!(label(QualityBand::Poor), "Ruim");
    assert_eq!(label(QualityBand::Unacceptable), "Inaceitavel");
    assert_eq!(label(QualityBand::Invalid), "Invalido");
    assert_eq!(color(QualityBand::Excellent), "#4CAF50");
    assert_eq!(color(QualityBand::Unacceptable), "#FF9800");
}

#[test]
fn five_band_table_lookup() {
    let mut table = BandTable::new();
    table.push_band(0, String::from("excellent"), String::from("#4CAF50"));
    table.push_band(300_000, String::from("good"), String::from("#8BC34A"));
    table.push_band(600_000, String::from("acceptable"), String::from("#FFC107"));
    table.push_band(900_000, String::from("poor"), String::from("#FF9800"));
    table.push_band(1_200_000, String::from("unacceptable"), String::from("#F44336"));

    assert_eq!(table.lookup(-1), None);
    assert_eq!(table.lookup(0), Some(0));
    assert_eq!(table.lookup(299_999), Some(0));
    assert_eq!(table.lookup(300_000), Some(1));
    assert_eq!(table.lookup(1_199_999), Some(3));
    assert_eq!(table.lookup(5_000_000), Some(4));
}

#[test]
fn empty_table_classifies_nothing() {
    let table = BandTable::new();
    assert_eq!(table.lookup(100), None);
}
