use rawskap_transfer::framdrift::{Melding, Status};
use rawskap_transfer::json::{Felt, Kropp, Svar};
use rawskap_transfer::media::Bilder;
use rawskap_transfer::multipart::DEL_GRENSE;
use rawskap_transfer::opplasting::{
    avbryt_kropp, bilde_kropp, fullfor_dom, fullfor_kropp, fullfor_opplasting,
    lag_proxy_hvis_video, last_opp_en, oppgave, presign_dom, presign_kropp, presign_svar,
    proxy_nokkel, sendt_melding, Feil, Handling, Hendelse, Opp, Oppgave, Plass, Steg, Trinn,
};
use rawskap_transfer::portal::Svarfeil;

fn kjor(o: Oppgave, hs: &[Hendelse]) -> (Opp, Steg) {
    let (mut t, mut s) = Opp::begynn(o);
    for h in hs {
        assert!(t.kan_motta(*h), "{:?} kan ikke ta {:?}", t.trinn, h);
        let (t2, s2) = last_opp_en(o, t, *h);
        t = t2;
        s = s2;
    }
    (t, s)
}

fn navnene(k: &Kropp) -> Vec<&str> {
    k.felter.iter().map(|f| f.0.as_str()).collect()
}

fn ordene(r: Result<Plass, Svarfeil>) -> String {
    match r {
        Err(Svarfeil::Melding(t)) => t,
        Err(Svarfeil::IkkeJson) => "IkkeJson".to_string(),
        Ok(p) => p.url,
    }
}

#[test]
fn liten_fil_gaar_i_ett_stykke() {
    let o = oppgave("a.jpg", 10);
    let (t, s) = Opp::begynn(o);
    assert_eq!(s.handling, Handling::BeregnSum);
    assert_eq!(s.melding, Some(Melding { hentet: 0, total: 10, status: Status::Hash }));
    let (t, s) = last_opp_en(o, t, Hendelse::Gjort);
    assert_eq!(s.handling, Handling::Presign);
    assert_eq!(s.melding, Some(Melding { hentet: 0, total: 10, status: Status::Kobler }));
    let (t, s) = last_opp_en(o, t, Hendelse::Presignert { ok: true, lag_proxy: false });
    assert_eq!(s.handling, Handling::Apne);
    let (t, s) = last_opp_en(o, t, Hendelse::Gjort);
    assert_eq!(s.handling, Handling::Send);
    let (t, s) = last_opp_en(o, t, Hendelse::Sendt { avbrutt: false, status: Some(200) });
    assert_eq!(s.handling, Handling::Fullfor);
    assert_eq!(s.melding.unwrap().status, Status::Fullfor);
    assert!(s.og.is_none());
    let (_, s) = last_opp_en(o, t, Hendelse::Fullfort { ok: true, allerede: false });
    assert_eq!(s.handling, Handling::Ferdig);
    assert_eq!(s.melding.unwrap().status, Status::Ferdig);
    let (_, s) = last_opp_en(o, t, Hendelse::Fullfort { ok: true, allerede: true });
    assert_eq!(s.melding.unwrap().status, Status::Hoppet);
}

#[test]
fn stor_fil_gaar_i_deler() {
    let (_, s) = kjor(oppgave("a.jpg", DEL_GRENSE), &[Hendelse::Gjort]);
    assert_eq!(s.handling, Handling::Presign);
    let (_, s) = kjor(oppgave("a.jpg", DEL_GRENSE + 1), &[Hendelse::Gjort]);
    assert_eq!(s.handling, Handling::SendDeler);
    assert!(s.melding.is_none());
}

#[test]
fn manglende_proxy_velter_ikke_opplastingen() {
    let o = oppgave("a.mov", DEL_GRENSE + 1);
    let lop = |p: Option<u64>| {
        kjor(
            o,
            &[
                Hendelse::Gjort,
                Hendelse::Delt { ok: true, lag_proxy: true },
                Hendelse::Proxy(p),
            ],
        )
    };
    let (t, s) = lop(None);
    let (u, r) = lop(Some(5));
    assert_eq!(s, r);
    assert_eq!((t.proxy, u.proxy), (None, Some(5)));
    assert_eq!(s.handling, Handling::LagBilder);
    assert_eq!(s.melding.unwrap().status, Status::Fullfor);
    assert_eq!(s.og.unwrap().status, Status::Thumbs);
    let (_, s) = last_opp_en(o, t, Hendelse::Gjort);
    assert_eq!(s.handling, Handling::Fullfor);
}

#[test]
fn proxy_lages_etter_at_fila_er_lagret() {
    let o = oppgave("a.mov", 10);
    let (t, s) = kjor(
        o,
        &[
            Hendelse::Gjort,
            Hendelse::Presignert { ok: true, lag_proxy: true },
            Hendelse::Gjort,
            Hendelse::Sendt { avbrutt: false, status: Some(200) },
        ],
    );
    assert_eq!((t.trinn, s.handling), (Trinn::Proxy, Handling::LagProxy));
    assert_eq!(s.melding, Some(Melding { hentet: 10, total: 10, status: Status::Proxy }));
}

#[test]
fn avbrutt_opplasting_ryddes() {
    let o = oppgave("a.jpg", 10);
    let foran = [
        Hendelse::Gjort,
        Hendelse::Presignert { ok: true, lag_proxy: false },
        Hendelse::Gjort,
    ];
    let (t, _) = kjor(o, &foran);
    let (u, s) = last_opp_en(o, t, Hendelse::Sendt { avbrutt: true, status: Some(200) });
    assert_eq!(s.handling, Handling::Avbestill);
    let (u, s) = last_opp_en(o, u, Hendelse::Gjort);
    assert_eq!(s.handling, Handling::Feilet(Feil::Avbrutt));
    assert!(!u.kan_motta(Hendelse::Gjort));
    let (_, s) = last_opp_en(o, t, Hendelse::Sendt { avbrutt: false, status: Some(403) });
    assert_eq!(s.handling, Handling::Feilet(Feil::Lageret(403)));
    let (_, s) = last_opp_en(o, t, Hendelse::Sendt { avbrutt: false, status: None });
    assert_eq!(s.handling, Handling::Feilet(Feil::Ytre));
    let (_, s) = kjor(o, &[Hendelse::Gjort, Hendelse::Presignert { ok: false, lag_proxy: false }]);
    assert_eq!(s.handling, Handling::Feilet(Feil::Svar));
}

#[test]
fn opplastingsfeil_har_ord() {
    assert_eq!(Feil::Avbrutt.tekst().as_deref(), Some("Avbrutt"));
    assert_eq!(Feil::Lageret(403).tekst().as_deref(), Some("Lageret svarte 403 Forbidden"));
    assert_eq!(Feil::Ytre.tekst(), None);
    assert_eq!(Feil::Svar.tekst(), None);
}

#[test]
fn presignsvaret_leses() {
    let ok = b"{\"uploadUrl\":\"u\",\"originalKey\":\"k\",\"proxyPutUrl\":\"p\"}";
    let p = presign_svar(200, ok).unwrap();
    assert_eq!((p.url.as_str(), p.key.as_str(), p.proxy_put.as_str()), ("u", "k", "p"));
    let nektet = "Ikke tilgang — logg inn på nytt (API-nøkler kan ikke laste opp)";
    assert_eq!(ordene(presign_svar(401, ok)), nektet);
    assert_eq!(ordene(presign_svar(403, b"<")), nektet);
    assert_eq!(ordene(presign_svar(200, b"<")), "IkkeJson");
    assert_eq!(ordene(presign_svar(200, b"{\"kvoteSperre\":true}")), "Lagringen er full");
    assert_eq!(
        ordene(presign_svar(200, b"{\"kvoteSperre\":true,\"error\":\"fullt\",\"uploadUrl\":\"u\",\"originalKey\":\"k\"}")),
        "fullt"
    );
    assert_eq!(ordene(presign_svar(200, b"{\"uploadUrl\":\"u\"}")), "presign feilet");
    assert_eq!(ordene(presign_svar(500, b"{\"error\":\"au\"}")), "au");
    assert_eq!(presign_dom(Svar::tomt()).unwrap_err(), "presign feilet");
}

#[test]
fn kroppene_sier_det_de_skal() {
    let k = presign_kropp("a.jpg", "image/jpeg", 1, 2, "m");
    assert_eq!(
        navnene(&k),
        vec!["action", "filnavn", "mimeType", "filstorrelse", "sistEndret", "mappeId"]
    );
    assert!(matches!(&k.felter[0].1, Felt::Tekst(s) if s == "presign"));
    assert!(matches!(&k.felter[3].1, Felt::Tall(1)));
    assert!(matches!(&k.felter[4].1, Felt::Tall(2)));
    let k = avbryt_kropp("k");
    assert!(matches!(&k.felter[1].1, Felt::Tekster(v) if v.len() == 1 && v[0] == "k"));
    let k = fullfor_kropp("originals/x.y.mov", "y.mov", "video/quicktime", 1, 2, "", &None, None);
    assert_eq!(k.felter.len(), 7);
    let k = fullfor_kropp(
        "originals/x.y.mov",
        "y.mov",
        "video/quicktime",
        1,
        2,
        "",
        &Some("ff".to_string()),
        Some(9),
    );
    assert_eq!(navnene(&k)[7..], ["xxh64", "proxyKey", "proxyStorrelse"]);
    assert!(matches!(&k.felter[8].1, Felt::Tekst(s) if s == "proxy/x.y.mp4"));
    assert!(matches!(&k.felter[9].1, Felt::Tall(9)));
}

#[test]
fn proxynokkelen_er_serverens() {
    assert_eq!(proxy_nokkel("originals/abc.mov"), "proxy/abc.mp4");
    assert_eq!(proxy_nokkel("originals/abc"), "proxy/abc.mp4");
    assert_eq!(proxy_nokkel("abc.tar.gz"), "proxy/abc.tar.mp4");
    assert!(lag_proxy_hvis_video("https://p", "a.MOV"));
    assert!(!lag_proxy_hvis_video("", "a.mov"));
    assert!(!lag_proxy_hvis_video("https://p", "a.jpg"));
}

#[test]
fn bildene_legges_ved_naar_de_finnes() {
    let mut k = Kropp::ny();
    bilde_kropp(&mut k, &Bilder { bredde: 0, hoyde: 5, poster: None, sprite: None, frames: 0 });
    assert!(k.felter.is_empty());
    let b = Bilder {
        bredde: 4,
        hoyde: 3,
        poster: Some("p".to_string()),
        sprite: Some("s".to_string()),
        frames: 12,
    };
    bilde_kropp(&mut k, &b);
    assert_eq!(
        navnene(&k),
        vec!["bredde", "hoyde", "posterBase64", "spriteBase64", "spriteFrames"]
    );
    assert!(matches!(&k.felter[4].1, Felt::Tall(12)));
}

#[test]
fn fullforsvaret_leses() {
    assert_eq!(fullfor_opplasting(200, b"{}"), Ok(false));
    assert_eq!(fullfor_opplasting(200, b"<html>"), Ok(false));
    assert_eq!(fullfor_opplasting(200, b"{\"allerede\":true}"), Ok(true));
    assert_eq!(fullfor_opplasting(500, b"<html>"), Err("fullfør: feilet".to_string()));
    assert_eq!(fullfor_opplasting(400, b"{\"error\":\"au\"}"), Err("fullfør: au".to_string()));
    assert_eq!(fullfor_dom(200, &Svar::tomt()), Ok(false));
}

#[test]
fn sending_meldes_og_slutten_alltid() {
    assert_eq!(sendt_melding(5, 10, 150), None);
    assert!(sendt_melding(5, 10, 151).is_some());
    assert_eq!(
        sendt_melding(10, 10, 0),
        Some(Melding { hentet: 10, total: 10, status: Status::Laster })
    );
}
