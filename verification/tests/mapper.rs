use rawskap_transfer::json::{Felt, Svar};
use rawskap_transfer::lokalt::{er_utelatt, kommer_foer, med_skraastrek, ordne};
use rawskap_transfer::mapper::{les_mappenavn, Mappegang, Mappeminne};
use rawskap_transfer::opplasting::OppFil;

fn svar(id: &str) -> Svar {
    let mut s = Svar::tomt();
    s.id = Some(id.to_string());
    s
}

fn fil(relativ: &str, bytes: u64) -> OppFil {
    OppFil { sti: format!("/rot/{relativ}"), relativ: relativ.to_string(), bytes }
}

#[test]
fn mappenavn_uten_tomme() {
    assert_eq!(les_mappenavn("a//b/"), vec!["a", "b"]);
    assert!(les_mappenavn("").is_empty());
    assert!(les_mappenavn("/").is_empty());
}

#[test]
fn uten_mapper_brukes_rota() {
    let minne = Mappeminne::ny();
    let mut g = Mappegang::ny("rot", "");
    assert!(!g.neste(&minne));
    assert_eq!(g.forelder, "rot");
}

#[test]
fn mapper_lages_en_gang() {
    let mut minne = Mappeminne::ny();
    let mut g = Mappegang::ny("rot", "a/b");
    assert!(g.neste(&minne));
    let k = g.kropp();
    assert!(matches!(&k.felter[0].1, Felt::Tekst(s) if s == "a"));
    assert!(matches!(&k.felter[1].1, Felt::Tekst(s) if s == "rot"));
    g.laget(&mut minne, &svar("1")).unwrap();
    assert!(g.neste(&minne));
    let k = g.kropp();
    assert!(matches!(&k.felter[0].1, Felt::Tekst(s) if s == "b"));
    assert!(matches!(&k.felter[1].1, Felt::Tekst(s) if s == "1"));
    g.laget(&mut minne, &svar("2")).unwrap();
    assert!(!g.neste(&minne));
    assert_eq!(g.forelder, "2");
    assert_eq!(minne.finn("a").as_deref(), Some("1"));
    assert_eq!(minne.finn("a/b").as_deref(), Some("2"));

    let mut h = Mappegang::ny("rot", "a//b");
    assert!(!h.neste(&minne));
    assert_eq!(h.forelder, "2");
    let mut h = Mappegang::ny("rot", "a/c");
    assert!(h.neste(&minne));
    assert_eq!((h.i, h.forelder.as_str()), (1, "1"));
}

#[test]
fn ulike_mapper_forveksles_ikke() {
    let mut minne = Mappeminne::ny();
    minne.husk("a/b", "1");
    minne.husk("ab", "2");
    minne.husk("a", "3");
    let mut g = Mappegang::ny("rot", "ab");
    assert!(!g.neste(&minne));
    assert_eq!(g.forelder, "2");
    let mut g = Mappegang::ny("rot", "a/b");
    assert!(!g.neste(&minne));
    assert_eq!(g.forelder, "1");
    let mut g = Mappegang::ny("rot", "b");
    assert!(g.neste(&minne));
}

#[test]
fn mappe_som_ikke_kan_lages() {
    let mut minne = Mappeminne::ny();
    let mut g = Mappegang::ny("", "Bilder");
    assert!(g.neste(&minne));
    let mut s = Svar::tomt();
    assert_eq!(g.laget(&mut minne, &s).unwrap_err(), "Kunne ikke lage mappe «Bilder»: ?");
    s.error = Some("full".to_string());
    assert_eq!(g.laget(&mut minne, &s).unwrap_err(), "Kunne ikke lage mappe «Bilder»: full");
    assert_eq!(minne.finn("Bilder"), None);
}

#[test]
fn skjulte_filer_utelates() {
    assert!(er_utelatt(".DS_Store"));
    assert!(er_utelatt("a.mov.part"));
    assert!(er_utelatt("jobb.log"));
    assert!(!er_utelatt("a.mov"));
    assert!(!er_utelatt("part"));
    assert_eq!(med_skraastrek("a\\b\\c"), "a/b/c");
}

#[test]
fn filene_ordnes_etter_sti() {
    let inn = vec![fil("b", 1), fil("a/z", 2), fil("a", 3), fil("Ø", 4), fil("a", 5), fil("B", 6)];
    let ut = ordne(inn);
    let navn: Vec<(&str, u64)> = ut.iter().map(|f| (f.relativ.as_str(), f.bytes)).collect();
    assert_eq!(navn, vec![("B", 6), ("a", 3), ("a", 5), ("a/z", 2), ("b", 1), ("Ø", 4)]);
    assert!(ordne(vec![]).is_empty());
}

#[test]
fn ordningen_er_som_for_tekst() {
    let ord = ["", "a", "aa", "ab", "b", "æ", "ø", "\u{ffff}", "\u{10000}"];
    for x in ord {
        for y in ord {
            assert_eq!(kommer_foer(x, y), x < y);
        }
    }
}

#[test]
fn stor_liste_ordnes_stabilt() {
    let inn: Vec<OppFil> = (0..1000u64).map(|i| fil(&format!("f{}", (i * 7919) % 100), i)).collect();
    let mut fasit: Vec<(String, u64)> = inn.iter().map(|f| (f.relativ.clone(), f.bytes)).collect();
    fasit.sort_by(|a, b| a.0.cmp(&b.0));
    let ut: Vec<(String, u64)> =
        ordne(inn).into_iter().map(|f| (f.relativ, f.bytes)).collect();
    assert_eq!(ut, fasit);
}
