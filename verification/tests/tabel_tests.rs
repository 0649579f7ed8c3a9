use mit_sprog::tabel::Tabel;
use mit_sprog::tekst::kommer_foer;

#[test]
fn tabel_holder_navnene_i_orden() {
    let mut t: Tabel<String> = Tabel::ny();
    t.indsaet("navn".to_string(), "Alice".to_string());
    t.indsaet("alder".to_string(), "16".to_string());
    t.indsaet("erElev".to_string(), "sand".to_string());
    assert_eq!(t.laengde(), 3);
    let navne: Vec<String> = (0..t.laengde()).map(|i| t.post(i).0.clone()).collect();
    assert_eq!(navne, vec!["alder", "erElev", "navn"]);
}

#[test]
fn tabel_laeser_det_der_blev_skrevet() {
    let mut t: Tabel<String> = Tabel::ny();
    t.indsaet("a".to_string(), "1".to_string());
    t.indsaet("b".to_string(), "2".to_string());
    t.indsaet("a".to_string(), "3".to_string());
    assert_eq!(t.laengde(), 2);
    assert_eq!(t.find(&"a".to_string()), Some(&"3".to_string()));
    assert_eq!(t.find(&"b".to_string()), Some(&"2".to_string()));
    assert_eq!(t.find(&"c".to_string()), None);
}

#[test]
fn tekst_orden() {
    assert!(kommer_foer("alder", "erElev"));
    assert!(kommer_foer("a", "ab"));
    assert!(!kommer_foer("ab", "a"));
    assert!(!kommer_foer("a", "a"));
    assert!(kommer_foer("Z", "a"));
    assert!(kommer_foer("z", "æ"));
}
