use rawskap_transfer::lokalt::{Oppforing, Vandring};

fn mappe(navn: &str) -> Oppforing {
    Oppforing { navn: navn.to_string(), sti: String::new(), mappe: true, bytes: 4096 }
}

fn fil(navn: &str, sti: &str, bytes: u64) -> Oppforing {
    Oppforing { navn: navn.to_string(), sti: sti.to_string(), mappe: false, bytes }
}

#[test]
fn vandringen_gaar_ned_i_mappene() {
    let mut v = Vandring::ny();
    assert!(v.neste());
    assert!(!v.fant(fil("z.mov", "/rot/z.mov", 1)));
    assert!(v.fant(mappe("a")));
    assert!(v.fant(mappe("b")));
    assert!(v.neste());
    assert_eq!(v.her, vec!["b"]);
    assert!(v.fant(mappe("c")));
    assert!(v.neste());
    assert_eq!(v.her, vec!["b", "c"]);
    assert!(!v.fant(fil("x.mov", "/rot/b/c/x.mov", 2)));
    assert!(v.neste());
    assert_eq!(v.her, vec!["a"]);
    assert!(!v.fant(fil("y.mov", "/rot/a/y.mov", 3)));
    assert!(!v.neste());
    let filer: Vec<(String, String, u64)> =
        v.ferdig().into_iter().map(|f| (f.relativ, f.sti, f.bytes)).collect();
    assert_eq!(
        filer,
        vec![
            ("a/y.mov".to_string(), "/rot/a/y.mov".to_string(), 3),
            ("b/c/x.mov".to_string(), "/rot/b/c/x.mov".to_string(), 2),
            ("z.mov".to_string(), "/rot/z.mov".to_string(), 1),
        ]
    );
}

#[test]
fn det_utelatte_finnes_ikke_og_leses_ikke() {
    let mut v = Vandring::ny();
    assert!(v.neste());
    for navn in [".git", "gammel.part", "jobb.log"] {
        assert!(!v.fant(mappe(navn)));
        assert!(!v.fant(fil(navn, "", 1)));
    }
    assert!(!v.neste());
    assert!(v.ferdig().is_empty());
}

#[test]
fn relativ_sti_har_skraastreker() {
    let mut v = Vandring::ny();
    assert!(v.neste());
    assert!(v.fant(mappe("a\\b")));
    assert!(v.neste());
    assert!(!v.fant(fil("c\\d.mov", "", 0)));
    assert_eq!(v.filer[0].relativ, "a/b/c/d.mov");
}
