use rawskap_transfer::skall::{
    maskinnavn, menyvalg, skal_ryddes, startet_skjult, tray_tekst, versjon_url, vis_i_utforsker,
    Menyvalg, System,
};

const DAG: u128 = 86_400_000_000_000;

#[test]
fn traytekst_kuttes() {
    assert_eq!(tray_tekst(""), "Rawskap Transfer");
    assert_eq!(tray_tekst("⤒ 3 aktive"), "Rawskap Transfer — ⤒ 3 aktive");
    let lang = "ø".repeat(200);
    assert_eq!(tray_tekst(&lang), format!("Rawskap Transfer — {}", "ø".repeat(120)));
}

#[test]
fn menyen_har_to_valg() {
    assert_eq!(menyvalg("apne"), Menyvalg::Apne);
    assert_eq!(menyvalg("avslutt"), Menyvalg::Avslutt);
    assert_eq!(menyvalg("annet"), Menyvalg::Ukjent);
}

#[test]
fn skjult_start() {
    assert!(startet_skjult(&vec!["app".to_string(), "--skjult".to_string()]));
    assert!(!startet_skjult(&vec!["app".to_string(), "--skjul".to_string()]));
    assert!(!startet_skjult(&vec![]));
}

#[test]
fn maskinens_navn() {
    let n = |s: &str| Some(s.to_string());
    assert_eq!(maskinnavn(n("PC"), n("host")), "PC");
    assert_eq!(maskinnavn(None, n("host")), "host");
    assert_eq!(maskinnavn(None, None), "denne maskinen");
    assert_eq!(versjon_url(), "https://rawskap.no/api/transfer/versjon");
}

#[test]
fn utforskeren_viser_filer_og_mapper() {
    assert_eq!(
        vis_i_utforsker(System::Linux, "/a", false, false, "/").unwrap_err(),
        "finnes ikke"
    );
    let vis = |system, sti: &str, mappe| {
        let k = vis_i_utforsker(system, sti, true, mappe, "/forelder").unwrap();
        (k.program, k.argumenter)
    };
    let v = |s: &[&str]| s.iter().map(|x| x.to_string()).collect::<Vec<String>>();
    assert_eq!(
        vis(System::Windows, "C:/m/\"x\".mov", false),
        ("explorer.exe".to_string(), v(&["/select,\"C:\\m\\x.mov\""]))
    );
    assert_eq!(
        vis(System::Windows, "C:/m", true),
        ("explorer.exe".to_string(), v(&["\"C:\\m\""]))
    );
    assert_eq!(vis(System::Mac, "/a", false), ("open".to_string(), v(&["-R", "/a"])));
    assert_eq!(vis(System::Mac, "/a", true), ("open".to_string(), v(&["/a"])));
    assert_eq!(vis(System::Linux, "/a/b", false), ("xdg-open".to_string(), v(&["/forelder"])));
    assert_eq!(vis(System::Linux, "/a", true), ("xdg-open".to_string(), v(&["/a"])));
}

#[test]
fn bare_gamle_uferdige_filer_ryddes() {
    assert!(skal_ryddes("a.mov.part", true, Some(7 * DAG + 1), 7));
    assert!(!skal_ryddes("a.mov.part", true, Some(7 * DAG), 7));
    assert!(!skal_ryddes("a.mov.part", true, None, 7));
    assert!(!skal_ryddes("a.mov.part", false, Some(99 * DAG), 7));
    assert!(!skal_ryddes("a.mov", true, Some(99 * DAG), 7));
    assert!(!skal_ryddes(".part", true, Some(99 * DAG), 7));
    assert!(skal_ryddes("x.part", true, Some(DAG + 1), 0));
    assert!(!skal_ryddes("x.part", true, Some(DAG), 0));
}
