use rawskap_transfer::kalender::naa_sekunder;
use rawskap_transfer::opplasting::OppFil;
use rawskap_transfer::synk::{
    funn, nokkel, skal_lope, synk_ferdig_sti, synk_merk, synk_runde, vurder, Husket, Skann, Synk,
    SynkTilstand, Tekstsett,
};

fn fil(navn: &str, bytes: u64) -> OppFil {
    OppFil { sti: format!("/m/{navn}"), relativ: navn.to_string(), bytes }
}

fn mappe() -> Synk {
    Synk {
        id: "s/1".to_string(),
        lokal: "/m".to_string(),
        mappe_id: "9".to_string(),
        navn: "Mappe".to_string(),
        aktiv: true,
    }
}

#[test]
fn bare_aktive_mapper_med_sti_lopes() {
    let mut s = mappe();
    assert!(skal_lope(&s));
    s.lokal = String::new();
    assert!(!skal_lope(&s));
    s = mappe();
    s.aktiv = false;
    assert!(!skal_lope(&s));
}

#[test]
fn nokkelen_er_sti_storrelse_og_tid() {
    assert_eq!(nokkel(&fil("a", 12), 34), "/m/a|12|34");
    assert_ne!(nokkel(&fil("a", 12), 34), nokkel(&fil("a", 1), 234));
    assert_eq!(synk_ferdig_sti("s/1"), "synk-s_1.json");
}

#[test]
fn fil_meldes_naar_den_staar_stille() {
    let ferdige = Husket::tom();
    let mut forrige = Skann::ny();
    let mut meldt = Tekstsett::ny();
    let f = fil("a", 5);
    assert!(!vurder(&f, 100, 200, &ferdige, &forrige, &mut meldt));
    forrige.se("/m/a", 4, 100);
    assert!(!vurder(&f, 100, 200, &ferdige, &forrige, &mut meldt));
    forrige.se("/m/a", 5, 99);
    assert!(!vurder(&f, 100, 200, &ferdige, &forrige, &mut meldt));
    forrige.se("/m/a", 5, 100);
    assert!(!vurder(&f, 100, 109, &ferdige, &forrige, &mut meldt));
    assert!(!vurder(&f, 100, 50, &ferdige, &forrige, &mut meldt));
    assert!(vurder(&f, 100, 110, &ferdige, &forrige, &mut meldt));
    assert!(meldt.har("/m/a"));
    assert!(!vurder(&f, 100, 110, &ferdige, &forrige, &mut meldt));
}

#[test]
fn tom_og_sendt_fil_meldes_ikke() {
    let mut ferdige = Husket::tom();
    let mut forrige = Skann::ny();
    let mut meldt = Tekstsett::ny();
    forrige.se("/m/a", 0, 1);
    assert!(!vurder(&fil("a", 0), 1, 100, &ferdige, &forrige, &mut meldt));
    forrige.se("/m/b", 3, 1);
    ferdige.husk("/m/b|3|1".to_string());
    assert!(!vurder(&fil("b", 3), 1, 100, &ferdige, &forrige, &mut meldt));
    forrige.se("/m/b", 4, 2);
    assert!(vurder(&fil("b", 4), 2, 100, &ferdige, &forrige, &mut meldt));
}

#[test]
fn to_runder_melder_en_gang() {
    let gammel = naa_sekunder() - 1000;
    let naa = vec![(fil("a", 1), gammel), (fil("b", 2), gammel), (fil("a", 1), gammel)];
    let ferdige = Husket::tom();
    let mut meldt = SynkTilstand::default().meldt;
    let (nye, sett) = synk_runde(&naa, &ferdige, &Skann::ny(), &mut meldt);
    assert!(nye.is_empty());
    assert!(sett.uendret("/m/b", 2, gammel));
    let (nye, sett) = synk_runde(&naa, &ferdige, &sett, &mut meldt);
    let stier: Vec<&str> = nye.iter().map(|f| f.sti.as_str()).collect();
    assert_eq!(stier, vec!["/m/a", "/m/b"]);
    assert_eq!((nye[1].relativ.as_str(), nye[1].bytes), ("b", 2));
    let (nye2, _) = synk_runde(&naa, &ferdige, &sett, &mut meldt);
    assert!(nye2.is_empty());
    let f = funn(&mappe(), nye).unwrap();
    assert_eq!((f.id.as_str(), f.mappe_id.as_str(), f.navn.as_str()), ("s/1", "9", "Mappe"));
    assert_eq!(f.filer.len(), 2);
    assert!(funn(&mappe(), vec![]).is_none());
}

#[test]
fn sendt_fil_huskes_over_omstart() {
    let mut meldt = Tekstsett::ny();
    meldt.legg_til("/m/a");
    meldt.legg_til("/m/b");
    let mut ferdige = Husket::tom();
    synk_merk(&vec![(fil("a", 1), 7)], true, &mut meldt, &mut ferdige);
    assert!(!meldt.har("/m/a") && meldt.har("/m/b"));
    let fil_paa_disk = ferdige.skriv().unwrap();
    let lest = Husket::les(Some(&fil_paa_disk));
    assert!(lest.har("/m/a|1|7"));
    assert!(!lest.har("/m/a|1|8"));
    let mut forrige = Skann::ny();
    forrige.se("/m/a", 1, 7);
    assert!(!vurder(&fil("a", 1), 7, 100, &lest, &forrige, &mut meldt));
}

#[test]
fn feilet_jobb_huskes_ikke() {
    let mut meldt = Tekstsett::ny();
    meldt.legg_til("/m/a");
    let mut ferdige = Husket::tom();
    synk_merk(&vec![(fil("a", 1), 7)], false, &mut meldt, &mut ferdige);
    assert!(!meldt.har("/m/a"));
    assert!(!ferdige.har("/m/a|1|7"));
}

#[test]
fn huskefila_taaler_rusk() {
    assert!(!Husket::les(None).har("x"));
    assert!(!Husket::les(Some(b"<")).har("x"));
    assert!(!Husket::les(Some(b"[\"x\",1]")).har("x"));
    assert!(!Husket::les(Some(b"{\"x\":1}")).har("x"));
    let h = Husket::les(Some("[\"x\",\"y\",\"x\",\"\\u00f8\"]".as_bytes()));
    assert!(h.har("x") && h.har("y") && h.har("ø"));
    assert_eq!(h.skriv().unwrap(), "[\"x\",\"y\",\"ø\"]".as_bytes());
}
