use rawskap_transfer::tekst::{
    bytt, desimal, desimal_fylt, hex16, inneholder, slutter_med, splitt, starter_med, til_smaa,
    trim, trim_begge, trim_prefikser, trim_slutt,
};

#[test]
fn splitt_gir_alltid_et_stykke() {
    assert_eq!(splitt("", &['/']), vec![""]);
    assert_eq!(splitt("/", &['/']), vec!["", ""]);
    assert_eq!(splitt("a/b\\c", &['/', '\\']), vec!["a", "b", "c"]);
}

#[test]
fn trimming() {
    assert_eq!(trim_slutt("https://x///", '/'), "https://x");
    assert_eq!(trim_begge("\"\"e-tag\"", '"'), "e-tag");
    assert_eq!(trim_begge("\"\"", '"'), "");
    assert_eq!(trim("\u{00a0} a b\t\n"), "a b");
    assert_eq!(trim_prefikser("originals/originals/x", "originals/"), "x");
    assert_eq!(trim_prefikser("abc", ""), "abc");
}

#[test]
fn begynner_slutter_inneholder() {
    assert!(starter_med("rsk_live_1", "rsk_live_"));
    assert!(!starter_med("rsk", "rsk_live_"));
    assert!(slutter_med("a.part", ".part"));
    assert!(!slutter_med("part", ".part"));
    assert!(inneholder("Stream: Video: h264", "Video:"));
    assert!(!inneholder("Vide", "Video:"));
    assert!(inneholder("abc", ""));
}

#[test]
fn tall_som_tekst() {
    assert_eq!(desimal(0), "0");
    assert_eq!(desimal(u64::MAX), "18446744073709551615");
    assert_eq!(desimal_fylt(7, 2), "07");
    assert_eq!(desimal_fylt(12345, 4), "12345");
    assert_eq!(hex16(0xabc), "0000000000000abc");
    assert_eq!(hex16(u64::MAX), "ffffffffffffffff");
}

#[test]
fn bytting_og_smaa_bokstaver() {
    assert_eq!(bytt("a/b:c d", &['/', ':', ' '], '-'), "a-b-c-d");
    assert_eq!(til_smaa("ÆB.MXF"), "Æb.mxf");
}
