use rawskap_transfer::navn::{
    endelse_av, kandidatnavn, loggnavn, part_navn, stamme_av, trygg_sti, trygt_navn,
};

#[test]
fn trygt_navn_bytter_forbudte_tegn() {
    assert_eq!(trygt_navn("a/b\\c:d*e?f\"g<h>i|j"), "a_b_c_d_e_f_g_h_i_j");
}

#[test]
fn trygt_navn_beholder_resten() {
    assert_eq!(trygt_navn("Bilde æøå (1).jpg"), "Bilde æøå (1).jpg");
    assert_eq!(trygt_navn(""), "");
}

#[test]
fn trygt_navn_to_ganger_er_som_en_gang() {
    let en = trygt_navn("x<>:y");
    assert_eq!(trygt_navn(&en), en);
}

#[test]
fn sti_fra_server_holder_seg_i_mappa() {
    assert_eq!(trygg_sti("..\\..\\Startup/a:b//./c"), vec!["Startup", "a_b", "c"]);
    assert!(trygg_sti("").is_empty());
    assert!(trygg_sti("../..").is_empty());
    assert_eq!(trygg_sti("..."), vec!["..."]);
}

#[test]
fn navn_deles_ved_siste_punktum() {
    assert_eq!(stamme_av("a.b.mov"), "a.b");
    assert_eq!(endelse_av("a.b.mov"), ".mov");
    assert_eq!(stamme_av("uten"), "uten");
    assert_eq!(endelse_av("uten"), "");
}

#[test]
fn kandidater_faar_nummer_foran_endelsen() {
    assert_eq!(kandidatnavn("klipp.mov", 2), "klipp (2).mov");
    assert_eq!(kandidatnavn("klipp.mov", 3), "klipp (3).mov");
    assert_eq!(kandidatnavn("LESMEG", 10), "LESMEG (10)");
    assert_ne!(kandidatnavn("a.b", 11), kandidatnavn("a.b", 111));
}

#[test]
fn part_og_logg_har_trygge_navn() {
    assert_eq!(part_navn("a/b.mov"), "a_b.mov.part");
    assert_eq!(
        loggnavn("Jobb: 1", "2024/02/29 12:34:56Z"),
        "Jobb_ 1 2024-02-29-12-34-56.log"
    );
}

#[test]
fn ingen_av_filnavnene_forlater_mappa() {
    let onde = ["../../x.mov", "a\\b.mov", "c:.d/e"];
    for navn in onde {
        let trygt = trygt_navn(navn);
        for n in [kandidatnavn(&trygt, 2), kandidatnavn(&trygt, 10), part_navn(navn)] {
            assert!(!n.contains(['/', '\\', ':', '*', '?', '"', '<', '>', '|']));
        }
    }
    assert_eq!(kandidatnavn(&trygt_navn("../x.mov"), 2), ".._x (2).mov");
}
