use rawskap_transfer::struping::{
    neste_sovn, samtidige, Struper, Tilstand, LENGSTE_SOVN, MAKS_NED, MAKS_OPP,
};

#[test]
fn uten_tak_ingen_pause() {
    let mut s = Struper::ny(0);
    assert_eq!(s.tell(1_000_000_000, 0), 0);
    assert_eq!(s.bytes, 1_000_000_000);
}

#[test]
fn pausen_tar_igjen_skjemaet() {
    // 1 MB ved 8 Mbit/s tar ett sekund.
    let mut s = Struper::ny(8);
    assert_eq!(s.tell(1_000_000, 250_000_000), 750_000_000);
    assert_eq!(s.tell(0, 1_000_000_000), 0);
}

#[test]
fn en_stor_bit_pauses_helt_ut() {
    // En del på 64 MiB ved 10 Mbit/s tar nesten 54 sekunder.
    let mut s = Struper::ny(10);
    assert_eq!(s.tell(64 * 1024 * 1024, 0), 53_687_091_200);
    assert_eq!(s.tell(64 * 1024 * 1024, 53_687_091_200), 53_687_091_200);
    assert_eq!(s.tell(0, 107_374_182_400), 0);
}

#[test]
fn pausen_rundes_opp() {
    // 8000 / 3 = 2666,67 nanosekunder.
    let mut s = Struper::ny(3);
    assert_eq!(s.tell(1, 0), 2667);
    assert_eq!(s.tell(0, 2666), 1);
    assert_eq!(s.tell(0, 2667), 0);
}

#[test]
fn den_lengste_pausen_kuttes_ikke() {
    let mut s = Struper::ny(1);
    assert_eq!(s.tell(u64::MAX, 0), 8000 * u64::MAX as u128);
    assert_eq!(neste_sovn(8000 * u64::MAX as u128), LENGSTE_SOVN);
}

#[test]
fn soevnen_deles_i_biter_som_blir_pausen() {
    assert_eq!(neste_sovn(5), 5);
    assert_eq!(neste_sovn(LENGSTE_SOVN as u128), 2_000_000_000);
    let mut igjen: u128 = 53_687_091_200;
    let mut sovet: u64 = 0;
    while igjen > 0 {
        let n = neste_sovn(igjen);
        assert!(n <= LENGSTE_SOVN);
        sovet += n;
        igjen -= n as u128;
    }
    assert_eq!(sovet, 53_687_091_200);
}

#[test]
fn taket_kan_endres_underveis() {
    let mut s = Struper::ny(0);
    s.tell(1_000_000, 0);
    s.sett_tak(8);
    assert_eq!(s.tell(0, 0), 1_000_000_000);
}

#[test]
fn antall_strommer_holdes_innenfor() {
    assert_eq!(samtidige(0, MAKS_NED), 1);
    assert_eq!(samtidige(5, MAKS_NED), 5);
    assert_eq!(samtidige(9, MAKS_NED), 8);
    assert_eq!(samtidige(9, MAKS_OPP), 6);
}

#[test]
fn tilstanden_settes_og_nullstilles() {
    let mut t = Tilstand::default();
    assert!(!t.avbryt && t.ned_mbps == 0 && t.opp_mbps == 0);
    t.sett_nettverk(10, 20);
    t.avbryt();
    assert!(t.avbryt);
    t.ny_jobb();
    assert!(!t.avbryt);
    assert_eq!((t.ned_mbps, t.opp_mbps), (10, 20));
}
