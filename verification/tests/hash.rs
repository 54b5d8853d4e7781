use rawskap_transfer::hash::{stemmer, Filsum};
use rawskap_transfer::multipart::resume_sti;

#[test]
fn tom_fil_har_kjent_sum() {
    assert_eq!(Filsum::ny().ferdig(), "ef46db3751d8e999");
}

#[test]
fn sum_av_abc() {
    let mut f = Filsum::ny();
    f.mat(b"abc", 0);
    assert_eq!(f.ferdig(), "44bc2cf5ad770999");
}

#[test]
fn oppdelingen_betyr_ingenting() {
    let data: Vec<u8> = (0..100_000u32).map(|i| (i % 251) as u8).collect();
    let mut hel = Filsum::ny();
    hel.mat(&data, 0);
    let mut delt = Filsum::ny();
    for bit in data.chunks(777) {
        delt.mat(bit, 0);
    }
    assert_eq!(hel.ferdig(), delt.ferdig());
}

#[test]
fn lesing_meldes_etter_200_ms() {
    let mut f = Filsum::ny();
    assert_eq!(f.mat(b"abc", 200), None);
    assert_eq!(f.mat(b"de", 201), Some(5));
}

#[test]
fn sum_sammenlignes_uten_hensyn_til_store_bokstaver() {
    assert!(stemmer("44bc2cf5ad770999", "44BC2CF5AD770999"));
    assert!(!stemmer("44bc2cf5ad770999", "44bc2cf5ad770990"));
    assert!(!stemmer("44BC2CF5AD770999", "44bc2cf5ad770999"));
    assert!(stemmer("straße", "STRAßE"));
}

#[test]
fn resume_sti_er_summen_av_nokkelen() {
    let mut f = Filsum::ny();
    f.mat(b"/a/b.mov|123|456", 0);
    assert_eq!(resume_sti("/a/b.mov", 123, 456), format!("{}.json", f.ferdig()));
    assert_ne!(resume_sti("/a/b.mov", 123, 457), resume_sti("/a/b.mov", 123, 456));
}
