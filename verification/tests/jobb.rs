use rawskap_transfer::framdrift::Status;
use rawskap_transfer::jobb::{
    begynn, behandle, jobbslutt, kan_motta, loggpost, nedlasting, opplasting, samle, Handling,
    Hendelse, Oppgave, Post, Slutt, Trinn, Utfall,
};

fn ned() -> Oppgave {
    nedlasting(100)
}

#[test]
fn ned_tre_ganger_med_pause_og_opp_to_ganger_med_mappe() {
    assert_eq!(nedlasting(7), Oppgave { bytes: 7, maks: 3, mappe: false, pause: true });
    assert_eq!(opplasting(7), Oppgave { bytes: 7, maks: 2, mappe: true, pause: false });
}

#[test]
fn avbrutt_foer_sin_tur_meldes_ikke() {
    let (t, s) = behandle(ned(), Trinn::Tur, Hendelse::Tur { avbrutt: true });
    assert_eq!(t, Trinn::Over);
    assert_eq!(s.handling, Handling::Ferdig(Slutt::AldriBegynt));
    assert!(s.melding.is_none());
}

#[test]
fn filen_begynner_med_en_melding() {
    let (t, s) = behandle(ned(), Trinn::Tur, Hendelse::Tur { avbrutt: false });
    assert_eq!(t, Trinn::Forsok { n: 1 });
    let m = s.melding.unwrap();
    assert_eq!((m.hentet, m.total, m.status), (0, 100, Status::Laster));
}

#[test]
fn tre_forsok_og_ikke_flere() {
    let mut t = Trinn::Forsok { n: 1 };
    let mut forsok = 0;
    loop {
        forsok += 1;
        let (u, s) = behandle(ned(), t, Hendelse::Forsokt { ok: false, avbrutt: false });
        assert_eq!(s.handling, Handling::Pause);
        let (v, s) = behandle(ned(), u, Hendelse::Pause);
        t = v;
        if s.handling == Handling::Ferdig(Slutt::Feilet) {
            break;
        }
        assert_eq!(s.handling, Handling::Forsok);
    }
    assert_eq!(forsok, 3);
    assert!(!kan_motta(t, Hendelse::Pause));
}

#[test]
fn opplasting_lager_mappa_forst_og_pauser_ikke() {
    let o = opplasting(1);
    let (t, s) = behandle(o, Trinn::Tur, Hendelse::Tur { avbrutt: false });
    assert_eq!((t, s.handling), (Trinn::Mappe, Handling::LagMappe));
    let (t, _) = behandle(o, t, Hendelse::Mappe { ok: true });
    let (t, s) = behandle(o, t, Hendelse::Forsokt { ok: false, avbrutt: false });
    assert_eq!((t, s.handling), (Trinn::Forsok { n: 2 }, Handling::Forsok));
    let (_, s) = behandle(o, t, Hendelse::Forsokt { ok: false, avbrutt: false });
    assert_eq!(s.handling, Handling::Ferdig(Slutt::Feilet));
    let (_, s) = behandle(o, Trinn::Mappe, Hendelse::Mappe { ok: false });
    assert_eq!(s.handling, Handling::Ferdig(Slutt::Feilet));
}

#[test]
fn stopper_naar_det_gikk_eller_ble_avbrutt() {
    let t = Trinn::Forsok { n: 1 };
    let (_, s) = behandle(ned(), t, Hendelse::Forsokt { ok: true, avbrutt: true });
    assert_eq!(s.handling, Handling::Ferdig(Slutt::Gikk));
    let (_, s) = behandle(ned(), t, Hendelse::Forsokt { ok: false, avbrutt: true });
    assert_eq!(s.handling, Handling::Ferdig(Slutt::Feilet));
    assert!(!kan_motta(t, Hendelse::Tur { avbrutt: false }));
}

#[test]
fn hver_fil_telles_en_gang() {
    let r = samle(vec![
        Utfall::Gikk,
        Utfall::Feilet { id: "a".to_string(), feil: "au".to_string() },
        Utfall::Gikk,
        Utfall::Brast { feil: "panikk".to_string() },
    ]);
    assert_eq!(r.ok, 2);
    assert_eq!(r.feil.len(), 2);
    assert_eq!(r.feil[0].id.as_deref(), Some("a"));
    assert_eq!(r.feil[0].feil, "au");
    assert!(r.feil[1].id.is_none());
    assert_eq!(r.feil[1].feil, "panikk");
}

fn linjer(o: Oppgave, hs: &[Hendelse], feil: &str) -> Vec<String> {
    let (mut t, s) = begynn();
    assert_eq!(s.handling, Handling::SeEtterAvbrudd);
    let mut poster: Vec<Post> = s.logg.into_iter().collect();
    for h in hs {
        assert!(kan_motta(t, *h));
        let (u, s) = behandle(o, t, *h);
        t = u;
        poster.extend(s.logg);
    }
    assert_eq!(t, Trinn::Over);
    poster.into_iter().map(|p| loggpost(p, "7", 100, "", "/a", feil)).collect()
}

#[test]
fn hver_fil_har_en_startlinje_og_en_sluttlinje() {
    let start = "🚀 Startet                | ID: 7 | /a";
    assert_eq!(
        linjer(
            ned(),
            &[
                Hendelse::Tur { avbrutt: false },
                Hendelse::Forsokt { ok: false, avbrutt: false },
                Hendelse::Pause,
                Hendelse::Forsokt { ok: true, avbrutt: false },
            ],
            "au",
        ),
        vec![start, "✅ Ferdig & størrelse ok  |          100 B | ID: 7 | /a"]
    );
    assert_eq!(
        linjer(ned(), &[Hendelse::Tur { avbrutt: true }], "Avbrutt"),
        vec![start, "❌ Avbrutt                | ID: 7 | Avbrutt"]
    );
    assert_eq!(
        linjer(
            ned(),
            &[
                Hendelse::Tur { avbrutt: false },
                Hendelse::Forsokt { ok: false, avbrutt: true },
            ],
            "Portalen svarte 500",
        ),
        vec![start, "❌ Feilet                 | ID: 7 | Portalen svarte 500"]
    );
}

#[test]
fn sluttlinja_viser_kontrollsummen() {
    assert_eq!(
        loggpost(Post::Endte(Slutt::Gikk), "7", 100, "ff", "/a", ""),
        "✅ Ferdig & verifisert   | xxHash: ff | ID: 7 | /a"
    );
}

#[test]
fn jobben_slutter_med_et_sammendrag_av_alle() {
    let r = samle(vec![
        Utfall::Gikk,
        Utfall::Feilet { id: "a".to_string(), feil: "Avbrutt".to_string() },
        Utfall::Brast { feil: "panikk".to_string() },
        Utfall::Feilet { id: "b".to_string(), feil: "au".to_string() },
    ]);
    assert_eq!(
        jobbslutt(&r),
        vec![
            "🏁 ===== nedlasting ferdig =====",
            "\n\tTotalt: 4\n\tLastet ned: 1\n\tFeilet: 2\n\tAvbrutt: 1"
        ]
    );
}
