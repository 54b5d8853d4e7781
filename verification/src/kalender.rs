//! Calendar dates in the proleptic Gregorian calendar, and the time stamps of the
//! transfer log.
use crate::tekst::{desimal, desimal_fylt, desimaler, nullfylt, siffer};
use vstd::arithmetic::div_mod::{
    lemma_fundamental_div_mod, lemma_fundamental_div_mod_converse,
};
use vstd::prelude::*;
use vstd::string::*;

verus! {

/// Whether `aar` has a 29th of February.
pub open spec fn skuddaar(aar: int) -> bool {
    aar % 4 == 0 && (aar % 100 != 0 || aar % 400 == 0)
}

/// The number of days in a month.
pub open spec fn dager_i_maaned(aar: int, maaned: int) -> int {
    if maaned == 2 {
        if skuddaar(aar) {
            29
        } else {
            28
        }
    } else if maaned == 4 || maaned == 6 || maaned == 9 || maaned == 11 {
        30
    } else {
        31
    }
}

/// The number of leap years from year 1 up to and with `aar`.
pub open spec fn skuddaar_til(aar: int) -> int {
    aar / 4 - aar / 100 + aar / 400
}

/// Days from 1970-01-01 to the first of January of `aar`.
pub open spec fn dager_foer_aar(aar: int) -> int {
    365 * (aar - 1970) + skuddaar_til(aar - 1) - skuddaar_til(1969)
}

/// Days from the first of January to the first of `maaned`.
pub open spec fn dager_foer_maaned(aar: int, maaned: int) -> int
    decreases maaned,
{
    if maaned <= 1 {
        0
    } else {
        dager_foer_maaned(aar, maaned - 1) + dager_i_maaned(aar, maaned - 1)
    }
}

/// Whether year, month and day name a date.
pub open spec fn gyldig_dato(aar: int, maaned: int, dag: int) -> bool {
    1 <= maaned <= 12 && 1 <= dag <= dager_i_maaned(aar, maaned)
}

/// Days from 1970-01-01 to a date.
pub open spec fn dagnummer(aar: int, maaned: int, dag: int) -> int {
    dager_foer_aar(aar) + dager_foer_maaned(aar, maaned) + dag - 1
}

/// A quotient grows by one where the dividend reaches a multiple.
proof fn kvotient_vokser(a: int, d: int)
    requires
        d > 0,
    ensures
        a / d == (a - 1) / d + if a % d == 0 {
            1int
        } else {
            0
        },
{
    let q = (a - 1) / d;
    let r = (a - 1) % d;
    lemma_fundamental_div_mod(a - 1, d);
    if r + 1 < d {
        assert(a == q * d + (r + 1)) by (nonlinear_arith)
            requires
                a - 1 == d * q + r,
        ;
        lemma_fundamental_div_mod_converse(a, d, q, r + 1);
    } else {
        assert(a == (q + 1) * d) by (nonlinear_arith)
            requires
                a - 1 == d * q + r,
                r + 1 == d,
        ;
        lemma_fundamental_div_mod_converse(a, d, q + 1, 0);
    }
}

/// What is divisible by 400 is so by 100, and what is divisible by 100 is so by 4.
proof fn delelighet(a: int)
    ensures
        a % 100 == 0 ==> a % 4 == 0,
        a % 400 == 0 ==> a % 100 == 0,
{
}

#[verifier::spinoff_prover]
proof fn skuddaar_telles(aar: int)
    ensures
        skuddaar_til(aar) == skuddaar_til(aar - 1) + if skuddaar(aar) {
            1int
        } else {
            0
        },
{
    kvotient_vokser(aar, 4);
    kvotient_vokser(aar, 100);
    kvotient_vokser(aar, 400);
    delelighet(aar);
}

/// Day zero is the first of January 1970, and each year is 365 days long, or 366 in a
/// leap year.
#[verifier::spinoff_prover]
pub proof fn aar_for_aar(aar: int)
    ensures
        dagnummer(1970, 1, 1) == 0,
        dager_foer_aar(aar + 1) == dager_foer_aar(aar) + if skuddaar(aar) {
            366int
        } else {
            365int
        },
{
    skuddaar_telles(aar);
}

proof fn maanedsstart(aar: int)
    ensures
        dager_foer_maaned(aar, 1) == 0,
        dager_foer_maaned(aar, 2) == 31,
        ({
            let feb: int = if skuddaar(aar) {
                60
            } else {
                59
            };
            &&& dager_foer_maaned(aar, 3) == feb
            &&& dager_foer_maaned(aar, 4) == feb + 31
            &&& dager_foer_maaned(aar, 5) == feb + 61
            &&& dager_foer_maaned(aar, 6) == feb + 92
            &&& dager_foer_maaned(aar, 7) == feb + 122
            &&& dager_foer_maaned(aar, 8) == feb + 153
            &&& dager_foer_maaned(aar, 9) == feb + 184
            &&& dager_foer_maaned(aar, 10) == feb + 214
            &&& dager_foer_maaned(aar, 11) == feb + 245
            &&& dager_foer_maaned(aar, 12) == feb + 275
            &&& dager_foer_maaned(aar, 13) == feb + 306
        }),
{
    reveal_with_fuel(dager_foer_maaned, 14);
}

#[verifier::spinoff_prover]
proof fn aarets_plass(doe: int, yoe: int)
    requires
        0 <= doe < 146097,
        yoe == (doe - doe / 1460 + doe / 36524 - doe / 146096) / 365,
    ensures
        0 <= yoe < 400,
        365 * yoe + yoe / 4 - yoe / 100 <= doe,
        doe - (365 * yoe + yoe / 4 - yoe / 100) <= 364 + if skuddaar(yoe + 1) {
            1int
        } else {
            0
        },
{
}

/// Where in the year, counted from the first of March, a month begins.
spec fn marsmaaned(mp: int) -> int {
    (153 * mp + 2) / 5
}

proof fn maanedens_plass(doy: int, mp: int)
    requires
        0 <= doy <= 365,
        mp == (5 * doy + 2) / 153,
    ensures
        0 <= mp <= 11,
        marsmaaned(mp) <= doy,
        mp < 11 ==> doy < marsmaaned(mp + 1),
{
}

#[verifier::spinoff_prover]
proof fn datoen_stemmer(era: int, yoe: int, doy: int, mp: int)
    requires
        0 <= era,
        0 <= yoe < 400,
        0 <= doy <= 364 + if skuddaar(yoe + 1) {
            1int
        } else {
            0
        },
        mp == (5 * doy + 2) / 153,
    ensures
        ({
            let y = yoe + era * 400;
            let dag = doy - marsmaaned(mp) + 1;
            let maaned = if mp < 10 {
                mp + 3
            } else {
                mp - 9
            };
            let aar = if maaned <= 2 {
                y + 1
            } else {
                y
            };
            &&& 0 <= mp <= 11
            &&& gyldig_dato(aar, maaned, dag)
            &&& dagnummer(aar, maaned, dag) == 146097 * era + 365 * yoe + yoe / 4 - yoe / 100
                + doy - 719468
        }),
{
    let y = yoe + era * 400;
    maanedens_plass(doy, mp);
    maanedsstart(y);
    maanedsstart(y + 1);
    assert(skuddaar(y + 1) == skuddaar(yoe + 1));
    assert(skuddaar_til(y) == 97 * era + yoe / 4 - yoe / 100);
    let start = 146097 * era + 365 * yoe + yoe / 4 - yoe / 100 - 719468;
    assert(dager_foer_aar(y + 1) == start + 306);
    aar_for_aar(y);
    assert(dager_foer_aar(y) + dager_foer_maaned(y, 3) == start);
    if mp == 0 {
    } else if mp == 1 {
    } else if mp == 2 {
    } else if mp == 3 {
    } else if mp == 4 {
    } else if mp == 5 {
    } else if mp == 6 {
    } else if mp == 7 {
    } else if mp == 8 {
    } else if mp == 9 {
    } else if mp == 10 {
    } else {
    }
}

/// The date of a day counted from 1970-01-01.
pub fn sivil_dato(dager: u64) -> (r: (u64, u64, u64))
    requires
        dager <= u64::MAX / 86400,
    ensures
        gyldig_dato(r.0 as int, r.1 as int, r.2 as int),
        dagnummer(r.0 as int, r.1 as int, r.2 as int) == dager,
{
    let z: u64 = dager + 719468;
    let era: u64 = z / 146097;
    let doe: u64 = z % 146097;
    let yoe: u64 = (doe - doe / 1460 + doe / 36524 - doe / 146096) / 365;
    proof {
        aarets_plass(doe as int, yoe as int);
    }
    let y: u64 = yoe + era * 400;
    let doy: u64 = doe - (365 * yoe + yoe / 4 - yoe / 100);
    let mp: u64 = (5 * doy + 2) / 153;
    proof {
        maanedens_plass(doy as int, mp as int);
        datoen_stemmer(era as int, yoe as int, doy as int, mp as int);
    }
    let dag: u64 = doy - (153 * mp + 2) / 5 + 1;
    let maaned: u64 = if mp < 10 {
        mp + 3
    } else {
        mp - 9
    };
    let aar: u64 = if maaned <= 2 {
        y + 1
    } else {
        y
    };
    (aar, maaned, dag)
}

/// A later year begins on a later day, by at least 365 days for each year.
proof fn aar_i_rekkefolge(a: int, b: int)
    requires
        a <= b,
    ensures
        dager_foer_aar(b) >= dager_foer_aar(a) + 365 * (b - a),
        a < b ==> dager_foer_aar(b) >= dager_foer_aar(a) + if skuddaar(a) {
            366int
        } else {
            365int
        },
    decreases b - a,
{
    if a < b {
        aar_i_rekkefolge(a, b - 1);
        aar_for_aar(b - 1);
    }
}

/// A later month of one year begins after every day of an earlier one.
proof fn maaneder_i_rekkefolge(aar: int, a: int, b: int)
    requires
        1 <= a < b <= 13,
    ensures
        dager_foer_maaned(aar, b) >= dager_foer_maaned(aar, a) + dager_i_maaned(aar, a),
    decreases b - a,
{
    if a < b - 1 {
        maaneder_i_rekkefolge(aar, a, b - 1);
    }
}

/// A date's number lies within its year.
proof fn innenfor_aaret(aar: int, maaned: int, dag: int)
    requires
        gyldig_dato(aar, maaned, dag),
    ensures
        dager_foer_aar(aar) <= dagnummer(aar, maaned, dag) < dager_foer_aar(aar) + if skuddaar(
            aar,
        ) {
            366int
        } else {
            365int
        },
{
    maanedsstart(aar);
    maaneder_i_rekkefolge(aar, maaned, 13);
    if maaned > 1 {
        maaneder_i_rekkefolge(aar, 1, maaned);
    }
}

/// A day has one date only.
pub proof fn dato_entydig(a1: int, m1: int, d1: int, a2: int, m2: int, d2: int)
    requires
        gyldig_dato(a1, m1, d1),
        gyldig_dato(a2, m2, d2),
        dagnummer(a1, m1, d1) == dagnummer(a2, m2, d2),
    ensures
        a1 == a2,
        m1 == m2,
        d1 == d2,
{
    innenfor_aaret(a1, m1, d1);
    innenfor_aaret(a2, m2, d2);
    if a1 < a2 {
        aar_i_rekkefolge(a1, a2);
    } else if a2 < a1 {
        aar_i_rekkefolge(a2, a1);
    }
    if m1 < m2 {
        maaneder_i_rekkefolge(a1, m1, m2);
    } else if m2 < m1 {
        maaneder_i_rekkefolge(a1, m2, m1);
    }
}

/// The date of day `dager`.
pub open spec fn dato_av(dager: int) -> (int, int, int) {
    choose|d: (int, int, int)|
        gyldig_dato(d.0, d.1, d.2) && #[trigger] dagnummer(d.0, d.1, d.2) == dager
}

/// The time stamp of the second `sek` after 1970-01-01 00:00:00 UTC:
/// `yyyy/mm/dd hh:mm:ssZ`.
pub open spec fn stempel(sek: nat) -> Seq<char> {
    let (aar, maaned, dag) = dato_av((sek / 86400) as int);
    nullfylt(desimaler(aar as nat), 4) + "/"@ + nullfylt(desimaler(maaned as nat), 2) + "/"@
        + nullfylt(desimaler(dag as nat), 2) + " "@ + nullfylt(
        desimaler(sek % 86400 / 3600),
        2,
    ) + ":"@ + nullfylt(desimaler(sek % 3600 / 60), 2) + ":"@ + nullfylt(desimaler(sek % 60), 2)
        + "Z"@
}

/// Writes the time stamp of a second counted from 1970-01-01 00:00:00 UTC.
pub fn tidsstempel(sek: u64) -> (r: String)
    ensures
        r@ == stempel(sek as nat),
{
    let dager: u64 = sek / 86400;
    let rest: u64 = sek % 86400;
    let (aar, maaned, dag) = sivil_dato(dager);
    proof {
        let d = dato_av(dager as int);
        assert(dagnummer(aar as int, maaned as int, dag as int) == dager);
        let w = (aar as int, maaned as int, dag as int);
        assert(gyldig_dato(w.0, w.1, w.2) && dagnummer(w.0, w.1, w.2) == dager);
        dato_entydig(aar as int, maaned as int, dag as int, d.0, d.1, d.2);
        assert(rest % 3600 == sek % 3600);
        assert(rest % 60 == sek % 60);
    }
    let mut ut = desimal_fylt(aar, 4);
    ut.append("/");
    ut.append(desimal_fylt(maaned, 2).as_str());
    ut.append("/");
    ut.append(desimal_fylt(dag, 2).as_str());
    ut.append(" ");
    ut.append(desimal_fylt(rest / 3600, 2).as_str());
    ut.append(":");
    ut.append(desimal_fylt((rest % 3600) / 60, 2).as_str());
    ut.append(":");
    ut.append(desimal_fylt(rest % 60, 2).as_str());
    ut.append("Z");
    ut
}

/// The number that four digits spell.
pub open spec fn fire_sifre(s: Seq<char>, i: int) -> int {
    1000 * (s[i] as int - 48) + 100 * (s[i + 1] as int - 48) + to_sifre(s, i + 2)
}

/// The number that two digits spell.
pub open spec fn to_sifre(s: Seq<char>, i: int) -> int {
    10 * (s[i] as int - 48) + (s[i + 1] as int - 48)
}

/// Whether a text has the form `yyyy/mm/dd hh:mm:ssZ`, with digits for the letters.
pub open spec fn stempelform(s: Seq<char>) -> bool {
    &&& s.len() == 20
    &&& s[4] == '/' && s[7] == '/' && s[10] == ' ' && s[13] == ':' && s[16] == ':' && s[19] == 'Z'
    &&& forall|i: int|
        0 <= i < 19 && i != 4 && i != 7 && i != 10 && i != 13 && i != 16 ==> '0'
            <= #[trigger] s[i] <= '9'
}

/// The second, counted from 1970-01-01 00:00:00 UTC, that a time stamp names.
pub open spec fn stempel_lest(s: Seq<char>) -> int {
    86400 * dagnummer(fire_sifre(s, 0), to_sifre(s, 5), to_sifre(s, 8)) + 3600 * to_sifre(s, 11)
        + 60 * to_sifre(s, 14) + to_sifre(s, 17)
}

/// The first second of the year 10000.
pub open spec fn aar_ti_tusen() -> nat {
    253_402_300_800
}

proof fn to_siffer_felt(n: nat)
    requires
        n < 100,
    ensures
        nullfylt(desimaler(n), 2) == seq![siffer(n / 10), siffer(n % 10)],
{
    reveal_with_fuel(desimaler, 3);
    if n < 10 {
        assert(desimaler(n).len() == 1);
        assert(n / 10 == 0 && n % 10 == n);
    } else {
        assert(n / 10 < 10);
        assert(desimaler(n) =~= seq![siffer(n / 10), siffer(n % 10)]);
    }
    assert(nullfylt(desimaler(n), 2) =~= seq![siffer(n / 10), siffer(n % 10)]);
}

proof fn fire_siffer_felt(n: nat)
    requires
        1000 <= n < 10000,
    ensures
        nullfylt(desimaler(n), 4) == seq![
            siffer(n / 1000),
            siffer(n / 100 % 10),
            siffer(n / 10 % 10),
            siffer(n % 10),
        ],
{
    let a = n / 10;
    let b = a / 10;
    let c = b / 10;
    assert(b == n / 100 && c == n / 1000 && 1 <= c < 10);
    assert(desimaler(c) =~= seq![siffer(c)]);
    assert(desimaler(b) =~= seq![siffer(c), siffer(b % 10)]);
    assert(desimaler(a) =~= seq![siffer(c), siffer(b % 10), siffer(a % 10)]);
    assert(desimaler(n) =~= seq![siffer(c), siffer(b % 10), siffer(a % 10), siffer(n % 10)]);
}

proof fn datoen_finnes(dager: int)
    requires
        0 <= dager < 2_932_897,
    ensures
        ({
            let (aar, maaned, dag) = dato_av(dager);
            &&& gyldig_dato(aar, maaned, dag)
            &&& dagnummer(aar, maaned, dag) == dager
            &&& 1970 <= aar <= 9999
        }),
{
    let z = dager + 719468;
    let era = z / 146097;
    let doe = z % 146097;
    let yoe = (doe - doe / 1460 + doe / 36524 - doe / 146096) / 365;
    aarets_plass(doe, yoe);
    let doy = doe - (365 * yoe + yoe / 4 - yoe / 100);
    let mp = (5 * doy + 2) / 153;
    datoen_stemmer(era, yoe, doy, mp);
    let y = yoe + era * 400;
    let dag = doy - marsmaaned(mp) + 1;
    let maaned = if mp < 10 {
        mp + 3
    } else {
        mp - 9
    };
    let aar = if maaned <= 2 {
        y + 1
    } else {
        y
    };
    assert(dagnummer(aar, maaned, dag) == dager);
    let w = (aar, maaned, dag);
    assert(gyldig_dato(w.0, w.1, w.2) && dagnummer(w.0, w.1, w.2) == dager);
    let d = dato_av(dager);
    assert(gyldig_dato(d.0, d.1, d.2) && dagnummer(d.0, d.1, d.2) == dager);
    innenfor_aaret(d.0, d.1, d.2);
    assert(dager_foer_aar(1970) == 0);
    assert(dager_foer_aar(10000) == 2_932_897);
    if d.0 < 1970 {
        aar_i_rekkefolge(d.0, 1970);
    }
    if d.0 > 9999 {
        aar_i_rekkefolge(10000, d.0);
    }
}

proof fn to_sifre_av(n: nat)
    requires
        n < 100,
    ensures
        10 * (siffer(n / 10) as int - 48) + (siffer(n % 10) as int - 48) == n,
        '0' <= siffer(n / 10) <= '9',
        '0' <= siffer(n % 10) <= '9',
{
}

proof fn fire_sifre_av(n: nat)
    requires
        1000 <= n < 10000,
    ensures
        1000 * (siffer(n / 1000) as int - 48) + 100 * (siffer(n / 100 % 10) as int - 48) + 10 * (
        siffer(n / 10 % 10) as int - 48) + (siffer(n % 10) as int - 48) == n,
        '0' <= siffer(n / 1000) <= '9',
        '0' <= siffer(n / 100 % 10) <= '9',
        '0' <= siffer(n / 10 % 10) <= '9',
        '0' <= siffer(n % 10) <= '9',
{
    assert(n == 10 * (n / 10) + n % 10);
    assert(n / 10 == 10 * (n / 100) + n / 10 % 10);
    assert(n / 100 == 10 * (n / 1000) + n / 100 % 10);
}

/// The characters of a time stamp with these fields.
spec fn stempel_av(a: nat, o: nat, d: nat, t: nat, m: nat, k: nat) -> Seq<char> {
    seq![
        siffer(a / 1000),
        siffer(a / 100 % 10),
        siffer(a / 10 % 10),
        siffer(a % 10),
        '/',
        siffer(o / 10),
        siffer(o % 10),
        '/',
        siffer(d / 10),
        siffer(d % 10),
        ' ',
        siffer(t / 10),
        siffer(t % 10),
        ':',
        siffer(m / 10),
        siffer(m % 10),
        ':',
        siffer(k / 10),
        siffer(k % 10),
        'Z',
    ]
}

#[verifier::spinoff_prover]
proof fn feltene_leses(a: nat, o: nat, d: nat, t: nat, m: nat, k: nat)
    requires
        1000 <= a < 10000,
        o < 100,
        d < 100,
        t < 100,
        m < 100,
        k < 100,
    ensures
        ({
            let s = stempel_av(a, o, d, t, m, k);
            &&& stempelform(s)
            &&& fire_sifre(s, 0) == a
            &&& to_sifre(s, 5) == o
            &&& to_sifre(s, 8) == d
            &&& to_sifre(s, 11) == t
            &&& to_sifre(s, 14) == m
            &&& to_sifre(s, 17) == k
        }),
{
    fire_sifre_av(a);
    to_sifre_av(o);
    to_sifre_av(d);
    to_sifre_av(t);
    to_sifre_av(m);
    to_sifre_av(k);
}

#[verifier::spinoff_prover]
proof fn feltene_skrives(a: nat, o: nat, d: nat, t: nat, m: nat, k: nat)
    requires
        1000 <= a < 10000,
        o < 100,
        d < 100,
        t < 100,
        m < 100,
        k < 100,
    ensures
        nullfylt(desimaler(a), 4) + "/"@ + nullfylt(desimaler(o), 2) + "/"@ + nullfylt(
            desimaler(d),
            2,
        ) + " "@ + nullfylt(desimaler(t), 2) + ":"@ + nullfylt(desimaler(m), 2) + ":"@ + nullfylt(
            desimaler(k),
            2,
        ) + "Z"@ == stempel_av(a, o, d, t, m, k),
{
    fire_siffer_felt(a);
    to_siffer_felt(o);
    to_siffer_felt(d);
    to_siffer_felt(t);
    to_siffer_felt(m);
    to_siffer_felt(k);
    reveal_strlit("/");
    reveal_strlit(" ");
    reveal_strlit(":");
    reveal_strlit("Z");
    assert(nullfylt(desimaler(a), 4) + "/"@ + nullfylt(desimaler(o), 2) + "/"@ + nullfylt(
        desimaler(d),
        2,
    ) + " "@ + nullfylt(desimaler(t), 2) + ":"@ + nullfylt(desimaler(m), 2) + ":"@ + nullfylt(
        desimaler(k),
        2,
    ) + "Z"@ =~= stempel_av(a, o, d, t, m, k));
}

/// What the fields of a time stamp say.
#[verifier::spinoff_prover]
proof fn stempel_tegn(sek: nat)
    requires
        sek < aar_ti_tusen(),
    ensures
        ({
            let (aar, maaned, dag) = dato_av((sek / 86400) as int);
            let s = stempel(sek);
            &&& gyldig_dato(aar, maaned, dag)
            &&& dagnummer(aar, maaned, dag) == sek / 86400
            &&& stempelform(s)
            &&& fire_sifre(s, 0) == aar
            &&& to_sifre(s, 5) == maaned
            &&& to_sifre(s, 8) == dag
            &&& to_sifre(s, 11) == sek % 86400 / 3600
            &&& to_sifre(s, 14) == sek % 3600 / 60
            &&& to_sifre(s, 17) == sek % 60
        }),
{
    let (aar, maaned, dag) = dato_av((sek / 86400) as int);
    datoen_finnes((sek / 86400) as int);
    let t = sek % 86400 / 3600;
    let m = sek % 3600 / 60;
    let k = sek % 60;
    assert(t < 100 && m < 100 && k < 100);
    feltene_skrives(aar as nat, maaned as nat, dag as nat, t, m, k);
    feltene_leses(aar as nat, maaned as nat, dag as nat, t, m, k);
}

/// A time stamp is read as it was written: up to the year 10000 it has its fixed form, and
/// the second that it names is the one that it was written for.
pub proof fn stempel_kan_leses(sek: nat)
    requires
        sek < aar_ti_tusen(),
    ensures
        stempelform(stempel(sek)),
        stempel_lest(stempel(sek)) == sek,
{
    stempel_tegn(sek);
    assert(sek % 86400 == 3600 * (sek % 86400 / 3600) + sek % 3600);
    assert(sek % 3600 == 60 * (sek % 3600 / 60) + sek % 60);
}

/// Whether, of two texts of the same length, the first comes before the second: at the first
/// character in which they differ it has the smaller one.
pub open spec fn tekst_foer(a: Seq<char>, b: Seq<char>) -> bool {
    exists|i: int|
        0 <= i < a.len() && i < b.len() && #[trigger] a[i] < b[i] && forall|k: int|
            0 <= k < i ==> a[k] == b[k]
}

/// Of two different texts of the same form, one comes before the other.
proof fn en_er_forst(a: Seq<char>, b: Seq<char>, i: int)
    requires
        a.len() == b.len(),
        0 <= i <= a.len(),
        forall|k: int| 0 <= k < i ==> a[k] == b[k],
        a != b,
    ensures
        tekst_foer(a, b) || tekst_foer(b, a),
    decreases a.len() - i,
{
    if i == a.len() {
        assert(a =~= b);
    } else if a[i] == b[i] {
        en_er_forst(a, b, i + 1);
    } else if a[i] < b[i] {
        assert(tekst_foer(a, b));
    } else {
        assert(b[i] < a[i]);
        assert(tekst_foer(b, a));
    }
}

/// A date that is later by its year, or its month, or its day has a greater number.
proof fn senere_dato(a1: int, m1: int, d1: int, a2: int, m2: int, d2: int)
    requires
        gyldig_dato(a1, m1, d1),
        gyldig_dato(a2, m2, d2),
        a1 < a2 || a1 == a2 && (m1 < m2 || m1 == m2 && d1 < d2),
    ensures
        dagnummer(a1, m1, d1) < dagnummer(a2, m2, d2),
{
    innenfor_aaret(a1, m1, d1);
    innenfor_aaret(a2, m2, d2);
    if a1 < a2 {
        aar_i_rekkefolge(a1, a2);
    } else if m1 < m2 {
        maaneder_i_rekkefolge(a1, m1, m2);
    }
}

/// The first difference between two stamps, where it lies in the date.
#[verifier::spinoff_prover]
proof fn ulik_dato(x: Seq<char>, y: Seq<char>, i: int)
    requires
        stempelform(x),
        stempelform(y),
        0 <= i < 10,
        x[i] < y[i],
        forall|k: int| 0 <= k < i ==> x[k] == y[k],
    ensures
        ({
            let (a1, m1, d1) = (fire_sifre(x, 0), to_sifre(x, 5), to_sifre(x, 8));
            let (a2, m2, d2) = (fire_sifre(y, 0), to_sifre(y, 5), to_sifre(y, 8));
            a1 < a2 || a1 == a2 && (m1 < m2 || m1 == m2 && d1 < d2)
        }),
{
    assert(i != 4 && i != 7);
    assert(i > 0 ==> x[0] == y[0]);
    assert(i > 1 ==> x[1] == y[1]);
    assert(i > 2 ==> x[2] == y[2]);
    assert(i > 3 ==> x[3] == y[3]);
    assert(i > 5 ==> x[5] == y[5]);
    assert(i > 6 ==> x[6] == y[6]);
    assert(i > 8 ==> x[8] == y[8]);
    assert('0' <= x[0] && '0' <= x[1] <= '9' && '0' <= x[2] <= '9' && '0' <= x[3] <= '9');
    assert('0' <= y[0] && '0' <= y[1] <= '9' && '0' <= y[2] <= '9' && '0' <= y[3] <= '9');
    assert('0' <= x[6] <= '9' && '0' <= y[6] <= '9' && '0' <= x[9] <= '9' && '0' <= y[9] <= '9');
}

/// The first difference between two stamps, where it lies in the time of day.
#[verifier::spinoff_prover]
proof fn ulik_tid(x: Seq<char>, y: Seq<char>, i: int)
    requires
        stempelform(x),
        stempelform(y),
        10 <= i < 20,
        x[i] < y[i],
        forall|k: int| 0 <= k < i ==> x[k] == y[k],
    ensures
        fire_sifre(x, 0) == fire_sifre(y, 0),
        to_sifre(x, 5) == to_sifre(y, 5),
        to_sifre(x, 8) == to_sifre(y, 8),
        ({
            let (t1, n1, k1) = (to_sifre(x, 11), to_sifre(x, 14), to_sifre(x, 17));
            let (t2, n2, k2) = (to_sifre(y, 11), to_sifre(y, 14), to_sifre(y, 17));
            t1 < t2 || t1 == t2 && (n1 < n2 || n1 == n2 && k1 < k2)
        }),
{
    assert(i != 10 && i != 13 && i != 16 && i != 19);
    assert(x[0] == y[0] && x[1] == y[1] && x[2] == y[2] && x[3] == y[3]);
    assert(x[5] == y[5] && x[6] == y[6] && x[8] == y[8] && x[9] == y[9]);
    assert(i > 11 ==> x[11] == y[11]);
    assert(i > 12 ==> x[12] == y[12]);
    assert(i > 14 ==> x[14] == y[14]);
    assert(i > 15 ==> x[15] == y[15]);
    assert(i > 17 ==> x[17] == y[17]);
    assert('0' <= x[12] <= '9' && '0' <= y[12] <= '9' && '0' <= x[15] <= '9' && '0' <= y[15]
        <= '9' && '0' <= x[18] <= '9' && '0' <= y[18] <= '9');
}

/// An earlier time of one day is an earlier second.
proof fn tidligere_tid(a: nat, b: nat)
    requires
        a / 86400 == b / 86400,
        ({
            let (t1, n1, k1) = (a % 86400 / 3600, a % 3600 / 60, a % 60);
            let (t2, n2, k2) = (b % 86400 / 3600, b % 3600 / 60, b % 60);
            t1 < t2 || t1 == t2 && (n1 < n2 || n1 == n2 && k1 < k2)
        }),
    ensures
        a < b,
{
    assert(a % 86400 == 3600 * (a % 86400 / 3600) + a % 3600);
    assert(a % 3600 == 60 * (a % 3600 / 60) + a % 60);
    assert(b % 86400 == 3600 * (b % 86400 / 3600) + b % 3600);
    assert(b % 3600 == 60 * (b % 3600 / 60) + b % 60);
}

/// Of two stamps, the one that comes first as a text names the earlier second.
#[verifier::spinoff_prover]
proof fn forst_er_tidligst(a: nat, b: nat)
    requires
        a < aar_ti_tusen(),
        b < aar_ti_tusen(),
        tekst_foer(stempel(a), stempel(b)),
    ensures
        a < b,
{
    stempel_tegn(a);
    stempel_tegn(b);
    let x = stempel(a);
    let y = stempel(b);
    let i = choose|i: int|
        0 <= i < x.len() && i < y.len() && #[trigger] x[i] < y[i] && forall|k: int|
            0 <= k < i ==> x[k] == y[k];
    let (a1, m1, d1) = dato_av((a / 86400) as int);
    let (a2, m2, d2) = dato_av((b / 86400) as int);
    if i < 10 {
        ulik_dato(x, y, i);
        senere_dato(a1, m1, d1, a2, m2, d2);
        assert(a / 86400 < b / 86400);
    } else {
        ulik_tid(x, y, i);
        assert(a / 86400 == b / 86400);
        tidligere_tid(a, b);
    }
}

/// Time stamps order as seconds do: up to the year 10000, the stamp of an earlier second
/// comes before that of a later one.
pub proof fn stempler_i_rekkefolge(a: nat, b: nat)
    requires
        a < b < aar_ti_tusen(),
    ensures
        tekst_foer(stempel(a), stempel(b)),
{
    stempel_kan_leses(a);
    stempel_kan_leses(b);
    en_er_forst(stempel(a), stempel(b), 0);
    if tekst_foer(stempel(b), stempel(a)) {
        forst_er_tidligst(b, a);
    }
}

/// A point in time of the machine's clock.
#[verifier::external_type_specification]
#[verifier::external_body]
pub struct ExSystemTime(std::time::SystemTime);

/// What `duration_since` gives when the clock stands before the other point in time.
#[verifier::external_type_specification]
#[verifier::external_body]
pub struct ExSystemTimeError(std::time::SystemTimeError);

/// `SystemTime::now`: whatever the machine's clock shows.
pub assume_specification[ std::time::SystemTime::now ]() -> std::time::SystemTime
;

/// How many nanoseconds a point in time lies after 1970-01-01 00:00:00 UTC; below zero for
/// one before that.
pub uninterp spec fn nanosekunder_ved(t: std::time::SystemTime) -> int;

/// How many nanoseconds a span lasts.
pub uninterp spec fn nanosekunder_i(d: std::time::Duration) -> nat;

/// `Duration::as_secs`: the whole seconds of a span.
pub assume_specification[ std::time::Duration::as_secs ](d: &std::time::Duration) -> (r: u64)
    ensures
        r == nanosekunder_i(*d) / 1_000_000_000,
;

/// `Duration::as_nanos`: the nanoseconds of a span.
pub assume_specification[ std::time::Duration::as_nanos ](d: &std::time::Duration) -> (r: u128)
    ensures
        r == nanosekunder_i(*d),
;

/// `SystemTime::duration_since` with 1970-01-01 00:00:00 UTC: the span up to `t`, or an
/// error where `t` lies before it.
#[verifier::external_body]
fn siden_epoken(t: &std::time::SystemTime) -> (r: Result<
    std::time::Duration,
    std::time::SystemTimeError,
>)
    ensures
        match r {
            Ok(d) => nanosekunder_ved(*t) == nanosekunder_i(d),
            Err(_) => nanosekunder_ved(*t) < 0,
        },
{
    t.duration_since(std::time::UNIX_EPOCH)
}

/// The whole seconds in a number of nanoseconds; zero below zero.
pub open spec fn hele_sekunder(nanosekunder: int) -> int {
    if nanosekunder < 0 {
        0
    } else {
        nanosekunder / 1_000_000_000
    }
}

/// Seconds since 1970-01-01 00:00:00 UTC at a point in time; zero for one before that.
pub fn sekunder_ved(t: &std::time::SystemTime) -> (r: u64)
    ensures
        r == hele_sekunder(nanosekunder_ved(*t)),
{
    match siden_epoken(t) {
        Ok(d) => d.as_secs(),
        Err(_) => 0,
    }
}

/// Seconds since 1970-01-01 00:00:00 UTC by the machine's clock; zero where the clock
/// stands before that. Which point in time the clock shows is left unsaid.
pub fn naa_sekunder() -> (r: u64)
    ensures
        er_klokkeslett(r),
{
    sekunder_ved(&std::time::SystemTime::now())
}

/// Whether a clock can show this second: it is that of some point in time.
pub open spec fn er_klokkeslett(sek: u64) -> bool {
    exists|t: std::time::SystemTime| sek == hele_sekunder(#[trigger] nanosekunder_ved(t))
}

/// The time stamp of the present second.
pub fn chrono_lite() -> (r: String)
    ensures
        exists|sek: u64| er_klokkeslett(sek) && r@ == #[trigger] stempel(sek as nat),
{
    let sek: u64 = naa_sekunder();
    assert(er_klokkeslett(sek));
    tidsstempel(sek)
}

/// A suffix for temporary files: a nanosecond count modulo a million.
pub fn suffiks_av(nanosekunder: u128) -> (r: String)
    ensures
        r@ == desimaler((nanosekunder % 1_000_000) as nat),
{
    desimal((nanosekunder % 1_000_000) as u64)
}

/// The nanoseconds of a suffix that is taken at a point in time: none where that lies
/// before 1970-01-01 00:00:00 UTC.
pub open spec fn suffikstall(nanosekunder: int) -> nat {
    if nanosekunder < 0 {
        0
    } else {
        (nanosekunder % 1_000_000) as nat
    }
}

/// A suffix for temporary files, taken from the clock: the nanoseconds of some point in
/// time modulo a million. Which point in time the clock shows is left unsaid.
pub fn rand_suffiks() -> (r: String)
    ensures
        exists|t: std::time::SystemTime|
            r@ == desimaler(suffikstall(#[trigger] nanosekunder_ved(t))),
{
    let t = std::time::SystemTime::now();
    let nanosekunder: u128 = match siden_epoken(&t) {
        Ok(d) => d.as_nanos(),
        Err(_) => 0,
    };
    assert((nanosekunder % 1_000_000) as nat == suffikstall(nanosekunder_ved(t)));
    suffiks_av(nanosekunder)
}

/// The whole seconds in a number of nanoseconds are as many as fit in it, and a suffix is
/// what is left of it when millions are taken away; below zero both are zero.
pub proof fn hele_sekunder_og_rest(nanosekunder: int)
    ensures
        nanosekunder < 0 ==> hele_sekunder(nanosekunder) == 0 && suffikstall(nanosekunder) == 0,
        nanosekunder >= 0 ==> hele_sekunder(nanosekunder) * 1_000_000_000 <= nanosekunder < (
        hele_sekunder(nanosekunder) + 1) * 1_000_000_000,
        nanosekunder >= 0 ==> suffikstall(nanosekunder) < 1_000_000 && (nanosekunder - suffikstall(
            nanosekunder,
        )) % 1_000_000 == 0,
{
}

} // verus!
