use rawskap_transfer::framdrift::{
    logg_feilet, logg_ferdig, logg_startet, logghode, logglinje, loggslutt, Framdrift, Melding,
    Status,
};

#[test]
fn statusord_er_de_vinduet_kjenner() {
    let ord: Vec<&str> = vec![
        Status::Laster.ord(),
        Status::Ferdig.ord(),
        Status::Verifisert.ord(),
        Status::Hoppet.ord(),
        Status::Feil.ord(),
        Status::Hash.ord(),
        Status::Kobler.ord(),
        Status::Setter.ord(),
        Status::Proxy.ord(),
        Status::Fullfor.ord(),
        Status::Thumbs.ord(),
    ];
    assert_eq!(
        ord,
        vec![
            "laster", "ferdig", "verifisert", "hoppet", "feil", "hash", "kobler", "setter",
            "proxy", "fullfor", "thumbs"
        ]
    );
}

#[test]
fn framdrift_om_en_fil() {
    let f = Framdrift::ny("7", Melding { hentet: 1, total: 2, status: Status::Laster });
    assert_eq!((f.id.as_str(), f.hentet, f.total, f.feil.is_none()), ("7", 1, 2, true));
    let g = Framdrift::feilet("7", 9, "Avbrutt");
    assert_eq!((g.hentet, g.total, g.status), (0, 9, Status::Feil));
    assert_eq!(g.feil.as_deref(), Some("Avbrutt"));
}

#[test]
fn logglinjer_har_fast_bredde() {
    assert_eq!(logglinje("T", "x"), "T x\n");
    assert_eq!(logg_startet("1", "/a"), "🚀 Startet                | ID: 1 | /a");
    assert_eq!(logg_feilet("1", "Avbrutt"), "❌ Avbrutt                | ID: 1 | Avbrutt");
    assert_eq!(logg_feilet("1", "au"), "❌ Feilet                 | ID: 1 | au");
    assert_eq!(
        logg_ferdig("1", 42, "", "/a"),
        "✅ Ferdig & størrelse ok  |           42 B | ID: 1 | /a"
    );
    assert_eq!(
        logg_ferdig("1", 1_234_567_890_123, "", "/a"),
        "✅ Ferdig & størrelse ok  | 1234567890123 B | ID: 1 | /a"
    );
    assert_eq!(
        logg_ferdig("1", 42, "ff", "/a"),
        "✅ Ferdig & verifisert   | xxHash: ff | ID: 1 | /a"
    );
}

#[test]
fn logghodet_har_tre_linjer() {
    assert_eq!(
        logghode("0.1.2", "linux", "Bryllup", 3, "/mål"),
        vec!["Rawskap Transfer - 0.1.2 (linux)", "Jobb: Bryllup | 3 filer | mål: /mål", ""]
    );
}

#[test]
fn sammendraget_gaar_opp() {
    let feil = vec!["Avbrutt".to_string(), "annet".to_string(), "Avbrutt".to_string()];
    assert_eq!(
        loggslutt(4, &feil),
        vec![
            "🏁 ===== nedlasting ferdig =====",
            "\n\tTotalt: 7\n\tLastet ned: 4\n\tFeilet: 1\n\tAvbrutt: 2"
        ]
    );
}
