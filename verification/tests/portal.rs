use rawskap_transfer::json::{Felt, Svar};
use rawskap_transfer::portal::{
    agent, deling_dom, deling_url, er_bra, hent_deling, hent_liste, klient, kobling_kropp,
    kobling_poll, kobling_poll_url, kobling_start, kobling_url, liste_dom, liste_url, mappe_kropp,
    mapper_url, ny_mappe, ny_mappe_dom, opplasting_url, slett_filer, slett_kropp, slett_url, sok,
    sok_dom, sok_url, urlenc, Hodenavn, Svarfeil,
};

fn melding(f: Svarfeil) -> String {
    match f {
        Svarfeil::Melding(s) => s,
        Svarfeil::IkkeJson => "IkkeJson".to_string(),
    }
}

#[test]
fn urlenc_beskytter_alt_annet() {
    assert_eq!(urlenc("aZ09-_.~"), "aZ09-_.~");
    assert_eq!(urlenc("a b&c=ø/"), "a%20b%26c%3D%C3%B8%2F");
    assert_eq!(urlenc(""), "");
}

#[test]
fn adresser_hos_portalen() {
    let p = "https://x.no//";
    assert_eq!(liste_url(p, "m 1"), "https://x.no/api/rawskap/transfer/liste?mappe=m 1");
    assert_eq!(kobling_url(p), "https://x.no/api/rawskap/transfer/kobling");
    assert_eq!(kobling_poll_url(p, "K"), "https://x.no/api/rawskap/transfer/kobling?kode=K");
    assert_eq!(mapper_url(p), "https://x.no/api/rawskap/mapper");
    assert_eq!(opplasting_url(p), "https://x.no/api/rawskap/opplasting");
    assert_eq!(slett_url(p), "https://x.no/api/rawskap/slett");
    assert_eq!(
        deling_url(p, "T"),
        "https://x.no/api/bildebank/samling/transfer-liste?token=T"
    );
    assert_eq!(sok_url(p, "rød bil"), "https://x.no/api/rawskap/sok-semantisk?q=r%C3%B8d%20bil");
    assert_eq!(mapper_url("https://x.no"), mapper_url("https://x.no/"));
}

#[test]
fn nokkelen_blir_hode() {
    let h = klient("rsk_live_abc").unwrap();
    assert_eq!((h.navn, h.verdi.as_str()), (Hodenavn::Authorization, "Bearer rsk_live_abc"));
    let h = klient("tok").unwrap();
    assert_eq!((h.navn, h.verdi.as_str()), (Hodenavn::Cookie, "kunde_sesjon=tok"));
    assert_eq!(agent(), "RawskapTransfer/0.1");
}

#[test]
fn nokkel_med_styretegn_kan_ikke_vaere_hode() {
    assert!(klient("a\nb").is_none());
    assert!(klient("a\u{7f}").is_none());
    assert!(klient("a\tb").is_some());
    assert!(klient("nøkkel").is_some());
}

#[test]
fn liste_avvises_og_leses() {
    let ugyldig = "Nøkkelen er ugyldig eller utløpt — lag en ny i portalen.";
    assert_eq!(melding(hent_liste(401, b"{}").unwrap_err()), ugyldig);
    assert_eq!(melding(hent_liste(403, b"{}").unwrap_err()), ugyldig);
    assert_eq!(melding(hent_liste(404, b"{}").unwrap_err()), "Portalen svarte 404 Not Found");
    assert_eq!(melding(hent_liste(200, b"{").unwrap_err()), "IkkeJson");
    let v = hent_liste(200, b"{\"filer\":[1]}").unwrap();
    assert_eq!(v["filer"][0].as_u64(), Some(1));
    assert_eq!(liste_dom(200), None);
    assert!(er_bra(204) && !er_bra(302));
}

#[test]
fn kobling() {
    assert_eq!(
        melding(kobling_start(500, b"{}").unwrap_err()),
        "Portalen svarte 500 Internal Server Error"
    );
    assert_eq!(kobling_start(200, b"{\"kode\":\"A\"}").unwrap()["kode"].as_str(), Some("A"));
    assert_eq!(kobling_poll(200, b"null").unwrap(), hent_liste(200, b"null").unwrap());
    assert_eq!(melding(kobling_poll(401, b"").unwrap_err()), "Portalen svarte 401 Unauthorized");
    let k = kobling_kropp("PC");
    assert_eq!(k.felter.len(), 1);
    assert_eq!(k.felter[0].0, "maskin");
    assert!(matches!(&k.felter[0].1, Felt::Tekst(s) if s == "PC"));
}

#[test]
fn ny_mappe_maa_ha_nummer() {
    assert_eq!(
        melding(ny_mappe(403, b"{\"id\":\"1\"}").unwrap_err()),
        "Ikke tilgang — logg inn på nytt"
    );
    assert_eq!(melding(ny_mappe(200, b"{}").unwrap_err()), "Kunne ikke lage mappe");
    assert_eq!(melding(ny_mappe(500, b"{\"error\":\"full\"}").unwrap_err()), "full");
    assert_eq!(melding(ny_mappe(200, b"<html>").unwrap_err()), "IkkeJson");
    assert_eq!(ny_mappe(200, b"{\"id\":\"9\"}").unwrap()["id"].as_str(), Some("9"));
    let s = Svar::tomt();
    assert_eq!(ny_mappe_dom(&s).as_deref(), Some("Kunne ikke lage mappe"));
    let k = mappe_kropp("Ny", "");
    assert!(matches!(&k.felter[1].1, Felt::Null));
    let k = mappe_kropp("Ny", "7");
    assert!(matches!(&k.felter[1].1, Felt::Tekst(s) if s == "7"));
}

#[test]
fn sletting() {
    assert!(slett_filer(200).is_ok());
    assert_eq!(slett_filer(403).unwrap_err(), "Kunne ikke slette (403 Forbidden)");
    let k = slett_kropp(vec!["1".to_string(), "2".to_string()]);
    assert_eq!(k.felter[0].0, "assetIds");
    assert!(matches!(&k.felter[0].1, Felt::Tekster(v) if v.len() == 2 && v[1] == "2"));
}

#[test]
fn deling_og_sok() {
    assert_eq!(melding(hent_deling(404, b"{}").unwrap_err()), "Kunne ikke hente delingen");
    let kropp = "{\"error\":\"utløpt\"}";
    assert_eq!(melding(hent_deling(404, kropp.as_bytes()).unwrap_err()), "utløpt");
    assert!(hent_deling(200, b"[]").is_ok());
    assert_eq!(
        melding(sok(503, b"{}").unwrap_err()),
        "Søk i skapet er ikke satt opp på kontoen"
    );
    assert_eq!(melding(sok(503, b"x").unwrap_err()), "IkkeJson");
    assert_eq!(melding(sok(400, b"{}").unwrap_err()), "søket feilet");
    assert!(sok(200, b"[{\"id\":\"1\",\"score\":0.5}]").is_ok());
    let s = Svar::tomt();
    assert_eq!(deling_dom(200, &s), None);
    assert_eq!(deling_dom(500, &s).as_deref(), Some("Kunne ikke hente delingen"));
    assert_eq!(sok_dom(200, &s), None);
    assert_eq!(sok_dom(500, &s).as_deref(), Some("søket feilet"));
}
