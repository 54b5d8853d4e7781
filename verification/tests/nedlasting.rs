use rawskap_transfer::framdrift::Status;
use rawskap_transfer::nedlasting::{
    last_ned_en, les_konflikt, oppgave, original_url, plass, range_verdi, tolk_portal, Feil, Fil,
    Handling, Hendelse, Konflikt, Ned, Oppgave, Steg, Trinn,
};

fn fil() -> Fil {
    Fil {
        id: "42".to_string(),
        filnavn: "a/b.mov".to_string(),
        bytes: 100,
        sti: "x/../y".to_string(),
        xxh64: String::new(),
        url: String::new(),
    }
}

fn opp(konflikt: &str, sum: &str) -> Oppgave {
    let mut f = fil();
    f.xxh64 = sum.to_string();
    oppgave(&f, konflikt)
}

fn kjor(o: Oppgave, hs: &[Hendelse]) -> (Ned, Steg) {
    let (mut t, mut s) = Ned::begynn();
    for h in hs {
        assert!(t.kan_motta(*h), "{:?} kan ikke ta {:?}", t.trinn, h);
        let (t2, s2) = last_ned_en(o, t, *h);
        t = t2;
        s = s2;
    }
    (t, s)
}

#[test]
fn plassen_er_trygg() {
    let p = plass(&fil());
    assert_eq!(p.mappe, vec!["x", "y"]);
    assert_eq!(p.navn, "a_b.mov");
    assert_eq!(p.part, "a_b.mov.part");
}

#[test]
fn adressen_er_portalens_eller_filas_egen() {
    let mut f = fil();
    assert_eq!(original_url("https://x/", &f), "https://x/api/rawskap/original/42?last=1");
    f.url = "https://deling/1".to_string();
    assert_eq!(original_url("https://x/", &f), "https://deling/1");
    assert_eq!(range_verdi(512), "bytes=512-");
}

#[test]
fn konfliktvalg() {
    assert_eq!(les_konflikt("begge"), Konflikt::Begge);
    assert_eq!(les_konflikt("overskriv"), Konflikt::Overskriv);
    assert_eq!(les_konflikt("hopp"), Konflikt::Hopp);
    assert_eq!(les_konflikt(""), Konflikt::Hopp);
}

#[test]
fn portalens_svar_tolkes() {
    assert_eq!(tolk_portal(302, Some(false)), Ok(false));
    assert_eq!(tolk_portal(308, Some(true)), Ok(true));
    assert_eq!(tolk_portal(302, None), Err(Feil::UtenLocation));
    assert_eq!(tolk_portal(304, Some(false)), Err(Feil::Portalen(304)));
    assert_eq!(tolk_portal(403, None), Err(Feil::Blokkert));
    assert_eq!(tolk_portal(401, None), Err(Feil::UgyldigNokkel));
    assert_eq!(tolk_portal(200, None), Ok(true));
    assert_eq!(tolk_portal(500, None), Err(Feil::Portalen(500)));
}

#[test]
fn feilene_har_ord() {
    assert_eq!(Feil::Ytre.tekst(), "");
    assert_eq!(Feil::UtenLocation.tekst(), "302 uten Location");
    assert_eq!(Feil::Blokkert.tekst(), "Blokkert (samtykke trukket/utløpt)");
    assert_eq!(Feil::UgyldigNokkel.tekst(), "Nøkkelen er ugyldig — lag en ny");
    assert_eq!(Feil::Portalen(500).tekst(), "Portalen svarte 500");
    assert_eq!(Feil::Lageret(404).tekst(), "Lageret svarte 404");
    assert_eq!(Feil::Avbrutt.tekst(), "Avbrutt");
    assert_eq!(
        Feil::Ufullstendig { hentet: 5, bytes: 9 }.tekst(),
        "Ufullstendig: 5 av 9 bytes — prøv igjen (fortsetter der den slapp)"
    );
    assert_eq!(
        Feil::Storrelse { hentet: 5, bytes: 9 }.tekst(),
        "Feil størrelse: 5 av 9 bytes — prøv igjen (lastes ned på nytt)"
    );
    assert_eq!(
        Feil::Verifisering.tekst(),
        "Verifisering feilet (xxHash) — lastet ned på nytt"
    );
}

#[test]
fn hel_nedlasting_fra_bunnen() {
    let (t, s) = kjor(
        opp("hopp", ""),
        &[
            Hendelse::Gjort,
            Hendelse::Finnes(false),
            Hendelse::Storrelse(None),
            Hendelse::Storrelse(None),
            Hendelse::Portal { status: 302, adresse: Some(false) },
            Hendelse::Lager { status: 200, lengde: 100 },
            Hendelse::Gjort,
            Hendelse::Bit { n: Some(60), avbrutt: false },
            Hendelse::Skrevet { siden_ms: 10 },
            Hendelse::Bit { n: Some(40), avbrutt: false },
            Hendelse::Skrevet { siden_ms: 200 },
            Hendelse::Slutt,
            Hendelse::Gjort,
        ],
    );
    assert_eq!(t.trinn, Trinn::Navngi);
    assert_eq!(s.handling, Handling::Navngi);
    assert_eq!(t.hentet, 100);
    let (_, s) = last_ned_en(opp("hopp", ""), t, Hendelse::Gjort);
    assert_eq!(s.handling, Handling::Ferdig);
    let m = s.melding.unwrap();
    assert_eq!((m.hentet, m.total, m.status), (100, 100, Status::Ferdig));
}

#[test]
fn gjenopptak_fra_halv_fil() {
    let o = opp("hopp", "");
    let foran = [
        Hendelse::Gjort,
        Hendelse::Finnes(false),
        Hendelse::Storrelse(None),
        Hendelse::Storrelse(Some(60)),
        Hendelse::Portal { status: 302, adresse: Some(false) },
    ];
    let (t, s) = kjor(o, &foran);
    assert_eq!(s.handling, Handling::SporLager { med_nokkel: false, fra: Some(60) });
    let (t1, s) = last_ned_en(o, t, Hendelse::Lager { status: 206, lengde: 40 });
    assert_eq!(s.handling, Handling::Apne { bak: true });
    assert_eq!((t1.start, t1.hentet), (60, 60));
    let (t2, s) = last_ned_en(o, t, Hendelse::Lager { status: 200, lengde: 100 });
    assert_eq!(s.handling, Handling::Apne { bak: false });
    assert_eq!((t2.start, t2.hentet), (0, 0));
    let (_, s) = last_ned_en(o, t, Hendelse::Lager { status: 404, lengde: 0 });
    assert_eq!(s.handling, Handling::Feilet(Feil::Lageret(404)));
}

fn ingenting_igjen(o: Oppgave, rest: u64) -> (Ned, Steg) {
    kjor(
        o,
        &[
            Hendelse::Gjort,
            Hendelse::Finnes(false),
            Hendelse::Storrelse(None),
            Hendelse::Storrelse(Some(rest)),
            Hendelse::Portal { status: 302, adresse: Some(false) },
            Hendelse::Lager { status: 416, lengde: 0 },
        ],
    )
}

#[test]
fn ingenting_igjen_verifiseres_som_resten() {
    let (t, s) = ingenting_igjen(opp("hopp", ""), 100);
    assert_eq!((t.trinn, s.handling), (Trinn::Navngi, Handling::Navngi));
    assert_eq!(t.hentet, 100);
    let o = opp("hopp", "ff");
    let (t, s) = ingenting_igjen(o, 100);
    assert_eq!((t.trinn, s.handling), (Trinn::Sum, Handling::BeregnSum));
    assert_eq!(s.melding.unwrap().status, Status::Hash);
    let (u, s) = last_ned_en(o, t, Hendelse::Sum { stemmer: true });
    assert_eq!(s.handling, Handling::Navngi);
    let (_, s) = last_ned_en(o, u, Hendelse::Gjort);
    let m = s.melding.unwrap();
    assert_eq!((m.hentet, m.total, m.status), (100, 100, Status::Verifisert));
    let (_, s) = last_ned_en(o, t, Hendelse::Sum { stemmer: false });
    assert_eq!(s.handling, Handling::SlettFeil);
}

#[test]
fn rest_av_feil_storrelse_slettes() {
    for rest in [60, 101] {
        for sum in ["", "ff"] {
            let o = opp("hopp", sum);
            let (t, s) = ingenting_igjen(o, rest);
            assert_eq!((t.trinn, s.handling), (Trinn::SlettStorrelse, Handling::SlettFeil));
            let (t, s) = last_ned_en(o, t, Hendelse::Gjort);
            assert_eq!(t.trinn, Trinn::Over);
            let feil = Feil::Storrelse { hentet: rest, bytes: 100 };
            assert_eq!(s.handling, Handling::Feilet(feil));
        }
    }
}

#[test]
fn ukjent_storrelse_tas_som_den_er() {
    let mut f = fil();
    f.bytes = 0;
    let o = oppgave(&f, "hopp");
    let (t, s) = ingenting_igjen(o, 60);
    assert_eq!(s.handling, Handling::Navngi);
    let (_, s) = last_ned_en(o, t, Hendelse::Gjort);
    let m = s.melding.unwrap();
    assert_eq!((m.hentet, m.total, m.status), (0, 0, Status::Ferdig));
    f.xxh64 = "ff".to_string();
    let o = oppgave(&f, "hopp");
    let (t, s) = ingenting_igjen(o, 60);
    assert_eq!(s.handling, Handling::BeregnSum);
    let m = s.melding.unwrap();
    assert_eq!((m.hentet, m.total, m.status), (0, 0, Status::Hash));
    let (t, _) = last_ned_en(o, t, Hendelse::Sum { stemmer: true });
    let (_, s) = last_ned_en(o, t, Hendelse::Gjort);
    let m = s.melding.unwrap();
    assert_eq!((m.hentet, m.total, m.status), (0, 0, Status::Verifisert));
}

#[test]
fn ufullstendig_fil_faar_ikke_navn() {
    let (_, s) = kjor(
        opp("hopp", ""),
        &[
            Hendelse::Gjort,
            Hendelse::Finnes(false),
            Hendelse::Storrelse(None),
            Hendelse::Storrelse(None),
            Hendelse::Portal { status: 200, adresse: None },
            Hendelse::Lager { status: 200, lengde: 100 },
            Hendelse::Gjort,
            Hendelse::Bit { n: Some(60), avbrutt: false },
            Hendelse::Skrevet { siden_ms: 0 },
            Hendelse::Slutt,
            Hendelse::Gjort,
        ],
    );
    assert_eq!(s.handling, Handling::Feilet(Feil::Ufullstendig { hentet: 60, bytes: 100 }));
}

#[test]
fn feil_sum_sletter_fila() {
    let o = opp("hopp", "ff");
    let lop = [
        Hendelse::Gjort,
        Hendelse::Finnes(false),
        Hendelse::Storrelse(None),
        Hendelse::Storrelse(None),
        Hendelse::Portal { status: 302, adresse: Some(false) },
        Hendelse::Lager { status: 200, lengde: 100 },
        Hendelse::Gjort,
        Hendelse::Bit { n: Some(100), avbrutt: false },
        Hendelse::Skrevet { siden_ms: 0 },
        Hendelse::Slutt,
        Hendelse::Gjort,
    ];
    let (t, s) = kjor(o, &lop);
    assert_eq!(s.handling, Handling::BeregnSum);
    assert_eq!(s.melding.unwrap().status, Status::Hash);
    let (u, s) = last_ned_en(o, t, Hendelse::Sum { stemmer: false });
    assert_eq!(s.handling, Handling::SlettFeil);
    let (_, s) = last_ned_en(o, u, Hendelse::Gjort);
    assert_eq!(s.handling, Handling::Feilet(Feil::Verifisering));
    let (u, _) = last_ned_en(o, t, Hendelse::Sum { stemmer: true });
    let (_, s) = last_ned_en(o, u, Hendelse::Gjort);
    assert_eq!(s.melding.unwrap().status, Status::Verifisert);
}

#[test]
fn hel_fil_hoppes_over_og_resten_slettes() {
    let o = opp("hopp", "");
    let (t, s) = kjor(
        o,
        &[Hendelse::Gjort, Hendelse::Finnes(true), Hendelse::Storrelse(Some(100))],
    );
    assert_eq!(s.handling, Handling::SlettRest);
    let (_, s) = last_ned_en(o, t, Hendelse::Gjort);
    assert_eq!(s.handling, Handling::Ferdig);
    assert_eq!(s.melding.unwrap().status, Status::Hoppet);
    let (_, s) = kjor(
        o,
        &[Hendelse::Gjort, Hendelse::Finnes(true), Hendelse::Storrelse(Some(99))],
    );
    assert_eq!(s.handling, Handling::SeRest);
}

#[test]
fn begge_beholdes_under_nytt_navn() {
    let (t, s) = kjor(
        opp("begge", ""),
        &[
            Hendelse::Gjort,
            Hendelse::Finnes(true),
            Hendelse::Finnes(true),
            Hendelse::Finnes(false),
        ],
    );
    assert_eq!(t.valgt, 3);
    assert_eq!(s.handling, Handling::SeStorrelse);
}

#[test]
fn overskriv_hopper_aldri_over() {
    let o = opp("overskriv", "");
    let (t, s) = kjor(o, &[Hendelse::Gjort, Hendelse::Finnes(true)]);
    assert_eq!(s.handling, Handling::SlettGammel);
    // Den lar seg ikke slette, og ligger der fortsatt i full størrelse.
    let (t, s) = last_ned_en(o, t, Hendelse::Gjort);
    assert_eq!(s.handling, Handling::SeStorrelse);
    let (_, s) = last_ned_en(o, t, Hendelse::Storrelse(Some(100)));
    assert_eq!(s.handling, Handling::SeRest);
}

#[test]
fn nokkelen_sendes_bare_til_portalen() {
    let mut f = fil();
    f.url = "https://deling".to_string();
    let o = oppgave(&f, "hopp");
    let foran = [
        Hendelse::Gjort,
        Hendelse::Finnes(false),
        Hendelse::Storrelse(None),
        Hendelse::Storrelse(None),
    ];
    let (t, s) = kjor(o, &foran);
    assert_eq!(s.handling, Handling::SporPortal { med_nokkel: false });
    let svar = [
        Hendelse::Portal { status: 200, adresse: None },
        Hendelse::Portal { status: 302, adresse: Some(true) },
        Hendelse::Portal { status: 302, adresse: Some(false) },
    ];
    for h in svar {
        let (_, s) = last_ned_en(o, t, h);
        assert_eq!(s.handling, Handling::SporLager { med_nokkel: false, fra: None });
    }
    let egen = opp("hopp", "");
    let (t, s) = kjor(egen, &foran);
    assert_eq!(s.handling, Handling::SporPortal { med_nokkel: true });
    for (h, med_nokkel) in svar.into_iter().zip([true, true, false]) {
        let (_, s) = last_ned_en(egen, t, h);
        assert_eq!(s.handling, Handling::SporLager { med_nokkel, fra: None });
    }
}

#[test]
fn avbrudd_og_ytre_feil_avslutter() {
    let o = opp("hopp", "");
    let (_, s) = kjor(o, &[Hendelse::Ytre]);
    assert_eq!(s.handling, Handling::Feilet(Feil::Ytre));
    let t = Ned { trinn: Trinn::Bit, ..Ned::begynn().0 };
    let (t, s) = last_ned_en(o, t, Hendelse::Bit { n: Some(1), avbrutt: true });
    assert_eq!(s.handling, Handling::Feilet(Feil::Avbrutt));
    assert!(!t.kan_motta(Hendelse::Gjort) && !t.kan_motta(Hendelse::Slutt));
}
