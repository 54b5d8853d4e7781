use rawskap_transfer::json::{mappe_json, Felt, Kropp, Svar};

#[test]
fn svar_leses_felt_for_felt() {
    let s = Svar::les(
        b"{\"error\":\"e\",\"id\":\"i\",\"uploadId\":\"u\",\"uploadUrl\":\"l\",\
          \"originalKey\":\"k\",\"proxyPutUrl\":\"p\",\"kvoteSperre\":true,\"ok\":true,\
          \"allerede\":true}",
    )
    .unwrap();
    assert_eq!(s.error.as_deref(), Some("e"));
    assert_eq!(s.id.as_deref(), Some("i"));
    assert_eq!(s.upload_id.as_deref(), Some("u"));
    assert_eq!(s.upload_url.as_deref(), Some("l"));
    assert_eq!(s.original_key.as_deref(), Some("k"));
    assert_eq!(s.proxy_put_url.as_deref(), Some("p"));
    assert!(s.kvote_sperre && s.ok && s.allerede);
    assert!(s.deler.is_empty());
}

#[test]
fn felt_av_feil_slag_teller_ikke() {
    let s = Svar::les(b"{\"error\":1,\"id\":null,\"ok\":\"true\",\"deler\":{}}").unwrap();
    assert!(s.error.is_none() && s.id.is_none() && !s.ok && s.deler.is_empty());
    let s = Svar::les(b"[1,2]").unwrap();
    assert!(s.error.is_none() && !s.ok);
}

#[test]
fn deler_uten_nummer_eller_adresse_hoppes_over() {
    let s = Svar::les(
        b"{\"deler\":[{\"nr\":1,\"url\":\"a\"},{\"nr\":-1,\"url\":\"b\"},{\"nr\":2},\
          {\"url\":\"c\"},3,{\"nr\":2.5,\"url\":\"d\"},{\"nr\":4294967299,\"url\":\"e\"}]}",
    )
    .unwrap();
    assert_eq!(s.deler, vec![(1, "a".to_string()), (3, "e".to_string())]);
}

#[test]
fn det_som_ikke_er_json_sier_ingenting() {
    assert!(Svar::les(b"<html>").is_none());
    assert!(Svar::les(b"").is_none());
    assert!(!Svar::les_eller_tomt(b"<html>").ok);
    assert!(Svar::les_eller_tomt(b"{\"ok\":true}").ok);
}

#[test]
fn kroppens_felter() {
    let mut k = Kropp::ny();
    k.sett_tekst("a", "x");
    k.sett_tall("b", 7);
    k.sett("c", mappe_json(""));
    k.sett("d", mappe_json("m"));
    assert_eq!(k.felter.len(), 4);
    assert!(matches!(&k.felter[0].1, Felt::Tekst(s) if s == "x"));
    assert!(matches!(&k.felter[1].1, Felt::Tall(7)));
    assert!(matches!(&k.felter[2].1, Felt::Null));
    assert!(matches!(&k.felter[3].1, Felt::Tekst(s) if s == "m"));
}
