use rawskap_transfer::proxy::{
    enkodere, lag_og_last_opp_proxy, proxy_args, proxy_holder, proxy_navn, Enkoder, Handling,
    Hendelse, Oppgave, Trinn,
};

fn kjor(o: Oppgave, hs: &[Hendelse]) -> (Trinn, Handling) {
    let (mut t, mut s) = Trinn::begynn();
    for h in hs {
        assert!(t.kan_motta(*h), "{:?} kan ikke ta {:?}", t, h);
        let (t2, s2) = lag_og_last_opp_proxy(o, t, *h);
        t = t2;
        s = s2;
    }
    (t, s)
}

const O: Oppgave = Oppgave { enkodere: 2, kilde_kjent: true };

#[test]
fn maskinvaren_proves_forst() {
    assert_eq!(enkodere(true), vec![Enkoder::VideoToolbox, Enkoder::OpenH264]);
    assert_eq!(enkodere(false), vec![Enkoder::Nvenc, Enkoder::OpenH264]);
}

#[test]
fn proxyens_argumenter() {
    let bak = "-pix_fmt yuv420p -movflags +faststart -c:a aac -b:a 128k /ut.mp4";
    let foran = "-hide_banner -loglevel error -y -i /a -vf scale='min(1920,iw)':-2 -c:v";
    assert_eq!(
        proxy_args(Enkoder::Nvenc, "/a", "/ut.mp4").join(" "),
        format!("{foran} h264_nvenc -preset p4 -rc vbr -cq 26 -b:v 0 {bak}")
    );
    assert_eq!(
        proxy_args(Enkoder::OpenH264, "/a", "/ut.mp4").join(" "),
        format!("{foran} libopenh264 -b:v 8M {bak}")
    );
    assert_eq!(
        proxy_args(Enkoder::VideoToolbox, "/a", "/ut.mp4").join(" "),
        format!("{foran} h264_videotoolbox -q:v 55 {bak}")
    );
    assert_eq!(proxy_navn(12, "345"), "rawskap-proxy-12-345.mp4");
}

#[test]
fn proxyen_maa_vaere_hele_klippet() {
    assert!(!proxy_holder(None, false, None));
    assert!(!proxy_holder(Some(10_000), false, None));
    assert!(proxy_holder(Some(10_001), false, Some(false)));
    assert!(proxy_holder(Some(10_001), true, None));
    assert!(proxy_holder(Some(10_001), true, Some(true)));
    assert!(!proxy_holder(Some(10_001), true, Some(false)));
}

#[test]
fn proxy_lages_sendes_og_ryddes() {
    let (t, s) = kjor(
        O,
        &[
            Hendelse::Kjort(true),
            Hendelse::Storrelse(Some(50_000)),
            Hendelse::Lengde(Some(true)),
            Hendelse::Lest(Some(50_000)),
            Hendelse::Sendt(Some(200)),
        ],
    );
    assert_eq!((t, s), (Trinn::Rydd { n: 50_000, tatt: true }, Handling::Slett));
    let (t, s) = lag_og_last_opp_proxy(O, t, Hendelse::Slettet);
    assert_eq!((t, s), (Trinn::Over, Handling::Ferdig(Some(50_000))));
    assert!(!t.kan_motta(Hendelse::Slettet));
}

#[test]
fn neste_enkoder_naar_den_forste_ikke_holder() {
    let (t, s) = kjor(
        O,
        &[
            Hendelse::Kjort(true),
            Hendelse::Storrelse(Some(25_000)),
            Hendelse::Lengde(Some(false)),
            Hendelse::Slettet,
        ],
    );
    assert_eq!((t, s), (Trinn::Enkod { i: 1 }, Handling::Enkod { i: 1 }));
    let (t, s) = lag_og_last_opp_proxy(O, t, Hendelse::Kjort(false));
    assert_eq!(s, Handling::Slett);
    let (t, s) = lag_og_last_opp_proxy(O, t, Hendelse::Slettet);
    assert_eq!((t, s), (Trinn::SlettRest, Handling::Slett));
    let (_, s) = lag_og_last_opp_proxy(O, t, Hendelse::Slettet);
    assert_eq!(s, Handling::Ferdig(None));
}

#[test]
fn ukjent_kilde_maales_ikke() {
    let o = Oppgave { enkodere: 2, kilde_kjent: false };
    let (_, s) = kjor(o, &[Hendelse::Kjort(true), Hendelse::Storrelse(Some(50_000))]);
    assert_eq!(s, Handling::Les);
    let (_, s) = kjor(o, &[Hendelse::Kjort(true), Hendelse::Storrelse(None)]);
    assert_eq!(s, Handling::Slett);
}

#[test]
fn proxy_som_ikke_lagres_meldes_ikke() {
    let foran = [
        Hendelse::Kjort(true),
        Hendelse::Storrelse(Some(50_000)),
        Hendelse::Lengde(None),
        Hendelse::Lest(Some(50_000)),
    ];
    let (t, _) = kjor(O, &foran);
    for svar in [None, Some(403)] {
        let (u, _) = lag_og_last_opp_proxy(O, t, Hendelse::Sendt(svar));
        let (_, s) = lag_og_last_opp_proxy(O, u, Hendelse::Slettet);
        assert_eq!(s, Handling::Ferdig(None));
    }
    let (t, _) = kjor(O, &foran[..3]);
    for lest in [None, Some(10_000)] {
        let (_, s) = lag_og_last_opp_proxy(O, t, Hendelse::Lest(lest));
        assert_eq!(s, Handling::Slett);
    }
}
