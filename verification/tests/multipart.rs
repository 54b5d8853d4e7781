use rawskap_transfer::framdrift::{Melding, Status};
use rawskap_transfer::json::{Felt, Svar};
use rawskap_transfer::multipart::{
    brukbar, deler_kropp, multipart_start, neste_bit, sett_kropp, start_dom, start_kropp,
    tell_deler, underveis, url_for, Feil, Handling, Multipart, Resume, Trinn, BIT_BYTES, DEL_BYTES,
    PAUSE_DEL_MS,
};
use rawskap_transfer::portal::Svarfeil;

fn resume(deler: Vec<(u32, String)>, bytes: u64) -> Resume {
    Resume {
        upload_id: "u".to_string(),
        original_key: "originals/k.mov".to_string(),
        mappe_id: "m".to_string(),
        bytes,
        deler,
        proxy_put: "https://p".to_string(),
    }
}

fn urler(numre: &[u32]) -> Svar {
    let mut s = Svar::tomt();
    for n in numre {
        s.deler.push((*n, format!("https://d/{n}")));
    }
    s
}

fn melding(hentet: u64, total: u64, status: Status) -> Melding {
    Melding { hentet, total, status }
}

const BYTES: u64 = 3 * DEL_BYTES - 10;

#[test]
fn antall_deler_rundes_opp() {
    assert_eq!(tell_deler(0), 0);
    assert_eq!(tell_deler(1), 1);
    assert_eq!(tell_deler(DEL_BYTES), 1);
    assert_eq!(tell_deler(DEL_BYTES + 1), 2);
    assert_eq!(tell_deler(BYTES), 3);
}

#[test]
fn bare_samme_opplasting_gjenopptas() {
    assert_eq!(brukbar(Some(resume(vec![], 5)), 5, "m").upload_id, "u");
    assert_eq!(brukbar(Some(resume(vec![], 5)), 6, "m").upload_id, "");
    assert_eq!(brukbar(Some(resume(vec![], 5)), 5, "annen").upload_id, "");
    assert_eq!(brukbar(None, 5, "m").upload_id, "");
}

#[test]
fn ny_opplasting_fra_begynnelse_til_slutt() {
    let (mut m, s) = Multipart::begynn(BYTES, Resume::tom());
    assert_eq!(s.handling, Handling::Start);
    assert_eq!(s.meldinger, vec![melding(0, BYTES, Status::Kobler)]);
    let s = m.startet(resume(vec![], BYTES));
    assert!(s.husk);
    assert_eq!(s.handling, Handling::Signer { fra: 0, til: 3 });
    assert_eq!(
        s.meldinger,
        vec![melding(0, BYTES, Status::Laster), melding(0, BYTES, Status::Kobler)]
    );
    let svar = urler(&[1, 2, 3]);
    assert_eq!(m.signert(&svar).handling, Handling::Del { nr: 1 });
    for nr in 1..=3u32 {
        let s = m.begynn_del(false, &svar);
        let start = (nr as u64 - 1) * DEL_BYTES;
        let lengde = if nr == 3 { DEL_BYTES - 10 } else { DEL_BYTES };
        assert_eq!(s.handling, Handling::Send { nr, start, lengde });
        let s = m.put_svar(Some(200), Some(format!("\"e{nr}\"")));
        assert!(s.husk);
        if nr < 3 {
            assert_eq!(s.handling, Handling::Del { nr: nr + 1 });
            assert_eq!(s.meldinger, vec![melding(nr as u64 * DEL_BYTES, BYTES, Status::Laster)]);
        } else {
            assert_eq!(s.handling, Handling::Sett);
            assert_eq!(
                s.meldinger,
                vec![melding(BYTES, BYTES, Status::Laster), melding(BYTES, BYTES, Status::Setter)]
            );
        }
    }
    assert_eq!(
        m.resume.deler,
        vec![(1, "e1".to_string()), (2, "e2".to_string()), (3, "e3".to_string())]
    );
    let mut ok = Svar::tomt();
    ok.ok = true;
    let l = m.satt_sammen(&ok).unwrap();
    assert_eq!((l.key.as_str(), l.hentet, l.proxy_put.as_str()), ("originals/k.mov", BYTES, "https://p"));
    assert_eq!(m.trinn, Trinn::Over);
}

#[test]
fn gjenopptak_sender_bare_resten() {
    let (m, s) = Multipart::begynn(BYTES, resume(vec![(2, "e".to_string())], BYTES));
    assert_eq!(m.mangler, vec![1, 3]);
    assert_eq!(m.hentet, DEL_BYTES);
    assert_eq!(s.handling, Handling::Signer { fra: 0, til: 2 });
    assert_eq!(
        s.meldinger,
        vec![melding(0, BYTES, Status::Kobler), melding(DEL_BYTES, BYTES, Status::Laster)]
    );
}

#[test]
fn ny_start_finner_det_som_var_igjen() {
    let (mut m, _) = Multipart::begynn(BYTES, resume(vec![], BYTES));
    let svar = urler(&[1, 2, 3]);
    m.signert(&svar);
    m.begynn_del(false, &svar);
    m.put_svar(Some(200), Some("e1".to_string()));
    m.begynn_del(false, &svar);
    let husket = resume(m.resume.deler.clone(), BYTES);
    let (ny, s) = Multipart::begynn(BYTES, husket);
    assert_eq!(ny.mangler, m.mangler[m.i..].to_vec());
    assert_eq!(ny.mangler, vec![2, 3]);
    assert_eq!(s.handling, Handling::Signer { fra: 0, til: 2 });
}

#[test]
fn alt_sendt_settes_rett_sammen() {
    let deler = vec![(3, "c".to_string()), (1, "a".to_string()), (2, "b".to_string())];
    let (m, s) = Multipart::begynn(BYTES, resume(deler, BYTES));
    assert_eq!(s.handling, Handling::Sett);
    assert!(m.mangler.is_empty());
    assert_eq!(m.hentet, BYTES);
    let k = sett_kropp(&m.resume);
    assert!(matches!(&k.felter[3].1, Felt::Deler(d) if d.len() == 3 && d[0].0 == 3 && d[0].1 == "c"));
}

#[test]
fn deler_signeres_tjue_om_gangen() {
    let bytes = 45 * DEL_BYTES;
    let (mut m, s) = Multipart::begynn(bytes, resume(vec![], bytes));
    assert_eq!(s.handling, Handling::Signer { fra: 0, til: 20 });
    let k = deler_kropp(&m, 0, 20);
    assert!(matches!(&k.felter[3].1, Felt::Numre(v) if v.len() == 20 && v[19] == 20));
    let alle: Vec<u32> = (1..=45).collect();
    let svar = urler(&alle);
    m.signert(&svar);
    let mut handling = Handling::Del { nr: 1 };
    for _ in 0..20 {
        m.begynn_del(false, &svar);
        handling = m.put_svar(Some(200), Some("e".to_string())).handling;
    }
    assert_eq!(handling, Handling::Signer { fra: 20, til: 40 });
}

#[test]
fn dod_opplasting_erstattes_en_gang() {
    let (mut m, _) = Multipart::begynn(BYTES, resume(vec![], BYTES));
    let s = m.signert(&Svar::tomt());
    assert_eq!(s.handling, Handling::Start);
    assert!(m.omstart_brukt);
    m.startet(resume(vec![], BYTES));
    let s = m.signert(&Svar::tomt());
    assert_eq!(s.handling, Handling::Feilet(Feil::Signering));
    assert_eq!(m.trinn, Trinn::Over);
}

#[test]
fn del_proves_tre_ganger() {
    let (mut m, _) = Multipart::begynn(BYTES, resume(vec![], BYTES));
    let svar = urler(&[1, 2, 3]);
    m.signert(&svar);
    m.begynn_del(false, &svar);
    let s = m.put_svar(Some(500), None);
    assert_eq!((s.handling, s.pause_ms), (Handling::SendIgjen, PAUSE_DEL_MS));
    let s = m.put_svar(None, None);
    assert_eq!(s.handling, Handling::SendIgjen);
    let s = m.put_svar(Some(503), None);
    assert_eq!((s.handling, s.pause_ms), (Handling::Feilet(Feil::Del(1)), PAUSE_DEL_MS));
    assert!(m.resume.deler.is_empty());
}

#[test]
fn forbudt_del_og_del_uten_merke_gir_opp_straks() {
    for (status, etag) in [(403, Some("e".to_string())), (200, None)] {
        let (mut m, _) = Multipart::begynn(BYTES, resume(vec![], BYTES));
        let svar = urler(&[1, 2, 3]);
        m.signert(&svar);
        m.begynn_del(false, &svar);
        let s = m.put_svar(Some(status), etag);
        assert_eq!((s.handling, s.pause_ms), (Handling::Feilet(Feil::Del(1)), 0));
    }
}

#[test]
fn avbrudd_og_manglende_adresse_stopper_delen() {
    let (mut m, _) = Multipart::begynn(BYTES, resume(vec![], BYTES));
    let svar = urler(&[2]);
    m.signert(&svar);
    assert_eq!(m.begynn_del(false, &svar).handling, Handling::Feilet(Feil::UtenUrl));
    let (mut m, _) = Multipart::begynn(BYTES, resume(vec![], BYTES));
    let svar = urler(&[1]);
    m.signert(&svar);
    assert_eq!(m.begynn_del(true, &svar).handling, Handling::Feilet(Feil::Avbrutt));
}

#[test]
fn delfeil_har_ord() {
    assert_eq!(Feil::Avbrutt.tekst(&None), "Avbrutt");
    assert_eq!(Feil::UtenUrl.tekst(&None), "mangler URL for del");
    assert_eq!(Feil::Del(7).tekst(&None), "Del 7 feilet — prøv igjen (fortsetter fra del 7)");
    assert_eq!(
        Feil::Signering.tekst(&None),
        "Kunne ikke signere deler — opplastingen kan være utløpt; prøv igjen"
    );
    assert_eq!(Feil::Signering.tekst(&Some("nei".to_string())), "nei");
}

#[test]
fn framdrift_underveis_i_en_del() {
    assert_eq!(underveis(DEL_BYTES, BYTES, 5, 150), None);
    assert_eq!(
        underveis(DEL_BYTES, BYTES, 5, 151),
        Some(melding(DEL_BYTES + 5, BYTES, Status::Laster))
    );
    assert_eq!(
        underveis(DEL_BYTES, BYTES, 2 * DEL_BYTES, 151),
        Some(melding(BYTES, BYTES, Status::Laster))
    );
}

#[test]
fn bitene_dekker_delen() {
    let lengde = 2 * BIT_BYTES + 1;
    assert_eq!(neste_bit(0, lengde), Some(BIT_BYTES));
    assert_eq!(neste_bit(BIT_BYTES, lengde), Some(2 * BIT_BYTES));
    assert_eq!(neste_bit(2 * BIT_BYTES, lengde), Some(lengde));
    assert_eq!(neste_bit(lengde, lengde), None);
    assert_eq!(neste_bit(0, 0), None);
}

#[test]
fn siste_adresse_gjelder() {
    let deler = vec![(1, "a".to_string()), (2, "b".to_string()), (1, "c".to_string())];
    assert_eq!(url_for(&deler, 1).as_deref(), Some("c"));
    assert_eq!(url_for(&deler, 3), None);
}

#[test]
fn startsvaret_leses() {
    let r = multipart_start(
        200,
        b"{\"uploadId\":\"u\",\"originalKey\":\"k\",\"proxyPutUrl\":\"p\"}",
        9,
        "m",
    )
    .unwrap();
    assert_eq!((r.upload_id.as_str(), r.original_key.as_str()), ("u", "k"));
    assert_eq!((r.mappe_id.as_str(), r.bytes, r.proxy_put.as_str()), ("m", 9, "p"));
    assert!(r.deler.is_empty());
    let r = multipart_start(200, b"{\"uploadId\":\"u\",\"originalKey\":\"k\"}", 9, "").unwrap();
    assert_eq!(r.proxy_put, "");
    let ordene = |r: Result<Resume, Svarfeil>| match r {
        Err(Svarfeil::Melding(t)) => t,
        Err(Svarfeil::IkkeJson) => "IkkeJson".to_string(),
        Ok(_) => "Ok".to_string(),
    };
    assert_eq!(ordene(multipart_start(401, b"<", 9, "")), "IkkeJson");
    assert_eq!(ordene(multipart_start(401, b"{}", 9, "")), "Ikke tilgang — logg inn på nytt");
    assert_eq!(ordene(multipart_start(500, b"{}", 9, "")), "multipart-start feilet");
    assert_eq!(ordene(multipart_start(500, b"{\"error\":\"full\"}", 9, "")), "full");
    assert_eq!(start_dom(500, Svar::tomt(), 9, "").unwrap_err(), "multipart-start feilet");
    let k = start_kropp("a.mov", "video/quicktime", 9, 8, "");
    let navn: Vec<&str> = k.felter.iter().map(|f| f.0.as_str()).collect();
    assert_eq!(
        navn,
        vec!["action", "filnavn", "mimeType", "filstorrelse", "sistEndret", "mappeId"]
    );
}

#[test]
fn sammensetting_som_feiler() {
    let (mut m, _) = Multipart::begynn(1, resume(vec![(1, "e".to_string())], 1));
    assert_eq!(m.satt_sammen(&Svar::tomt()).unwrap_err(), "Kunne ikke sette sammen fila");
    let (mut m, _) = Multipart::begynn(1, resume(vec![(1, "e".to_string())], 1));
    let mut s = Svar::tomt();
    s.error = Some("mangler del".to_string());
    assert_eq!(m.satt_sammen(&s).unwrap_err(), "mangler del");
}

#[test]
fn gjenopptatt_opplasting_ender_med_hele_fila() {
    let ferdige = vec![(3, "e3".to_string()), (1, "e1".to_string())];
    let (mut m, _) = Multipart::begynn(BYTES, resume(ferdige, BYTES));
    // Hver ferdig del telles som full, også den siste.
    assert_eq!(m.hentet, 2 * DEL_BYTES);
    let svar = urler(&[2]);
    m.signert(&svar);
    m.begynn_del(false, &svar);
    let s = m.put_svar(Some(200), Some("e2".to_string()));
    assert_eq!(s.handling, Handling::Sett);
    assert_eq!(m.hentet, BYTES);
    let mut ok = Svar::tomt();
    ok.ok = true;
    assert_eq!(m.satt_sammen(&ok).unwrap().hentet, BYTES);
}
