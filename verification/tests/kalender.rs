use rawskap_transfer::kalender::{
    chrono_lite, naa_sekunder, rand_suffiks, sekunder_ved, sivil_dato, suffiks_av,
    tidsstempel,
};
use std::time::{Duration, SystemTime, UNIX_EPOCH};

#[test]
fn stempel_ved_epoken() {
    assert_eq!(tidsstempel(0), "1970/01/01 00:00:00Z");
    assert_eq!(tidsstempel(86_399), "1970/01/01 23:59:59Z");
    assert_eq!(tidsstempel(86_400), "1970/01/02 00:00:00Z");
}

#[test]
fn stempel_paa_skuddag() {
    assert_eq!(tidsstempel(951_782_400), "2000/02/29 00:00:00Z");
    assert_eq!(tidsstempel(1_709_210_096), "2024/02/29 12:34:56Z");
    assert_eq!(tidsstempel(4_107_542_400), "2100/03/01 00:00:00Z");
}

#[test]
fn sivil_dato_dag_for_dag() {
    assert_eq!(sivil_dato(0), (1970, 1, 1));
    assert_eq!(sivil_dato(364), (1970, 12, 31));
    assert_eq!(sivil_dato(365), (1971, 1, 1));
    assert_eq!(sivil_dato(59), (1970, 3, 1));
    assert_eq!(sivil_dato(789), (1972, 2, 29));
}

#[test]
fn stempel_av_klokka_har_fast_form() {
    let s = chrono_lite();
    assert_eq!(s.len(), 20);
    assert!(s.ends_with('Z'));
    let foer = naa_sekunder();
    assert!(foer > 1_600_000_000);
    assert!(s.as_str() <= tidsstempel(naa_sekunder()).as_str());
}

#[test]
fn sekunder_ved_et_tidspunkt() {
    assert_eq!(sekunder_ved(&UNIX_EPOCH), 0);
    assert_eq!(sekunder_ved(&(UNIX_EPOCH + Duration::from_millis(1_709_210_096_999))), 1_709_210_096);
    assert_eq!(sekunder_ved(&(UNIX_EPOCH - Duration::from_secs(5))), 0);
    let foer = sekunder_ved(&SystemTime::now());
    let naa = naa_sekunder();
    assert!(foer <= naa && naa <= sekunder_ved(&SystemTime::now()));
}

#[test]
fn suffiks_er_under_en_million() {
    assert_eq!(suffiks_av(1_234_567_890), "567890");
    assert_eq!(suffiks_av(1_000_000), "0");
    let n: u64 = rand_suffiks().parse().unwrap();
    assert!(n < 1_000_000);
}

#[test]
fn stempler_staar_i_rekkefolge() {
    let tider: [u64; 8] = [
        0, 59, 60, 86_399, 86_400, 951_782_399, 951_782_400, 253_402_300_799,
    ];
    for i in 1..tider.len() {
        assert!(tidsstempel(tider[i - 1]) < tidsstempel(tider[i]));
    }
    assert_eq!(tidsstempel(253_402_300_799), "9999/12/31 23:59:59Z");
}

#[test]
fn stempelet_kan_leses_tilbake() {
    for sek in [0u64, 1_709_210_096, 4_107_542_400] {
        let s = tidsstempel(sek);
        let tall = |a: usize, b: usize| s[a..b].parse::<u64>().unwrap();
        let dag = sek / 86_400;
        assert_eq!((tall(0, 4), tall(5, 7), tall(8, 10)), sivil_dato(dag));
        assert_eq!(dag * 86_400 + tall(11, 13) * 3600 + tall(14, 16) * 60 + tall(17, 19), sek);
    }
}
