//! The shell around the transfers: the tray, the file browser, the machine's name, and
//! tidying up after downloads that were never finished.
use crate::tekst::{
    bytt, byttet, har_suffiks, lik, slutter_med, tegn, tekster, utsnitt, valgfri,
};
use vstd::prelude::*;
use vstd::string::*;

verus! {

/// Seconds after which a question for the newest version is given up.
pub const VERSJON_TIDSFRIST_S: u64 = 10;

/// Where the newest version is asked for.
pub fn versjon_url() -> (r: &'static str)
    ensures
        r@ == "https://rawskap.no/api/transfer/versjon"@,
{
    "https://rawskap.no/api/transfer/versjon"
}

/// The first `n` characters of a text, or all where there are fewer.
pub open spec fn forste_tegn(s: Seq<char>, n: int) -> Seq<char> {
    if s.len() > n {
        s.take(n)
    } else {
        s
    }
}

/// What stands beside the tray icon: the name of the application, and the state of affairs,
/// cut off after 120 characters.
pub fn tray_tekst(tekst: &str) -> (r: String)
    ensures
        r@ == if tekst@.len() == 0 {
            "Rawskap Transfer"@
        } else {
            "Rawskap Transfer — "@ + forste_tegn(tekst@, 120)
        },
{
    let v = tegn(tekst);
    if v.len() == 0 {
        return "Rawskap Transfer".to_owned();
    }
    let n: usize = if v.len() > 120 {
        120
    } else {
        v.len()
    };
    let mut ut = "Rawskap Transfer — ".to_owned();
    assert(tekst@.subrange(0, n as int) =~= forste_tegn(tekst@, 120));
    ut.append(utsnitt(&v, 0, n).as_str());
    ut
}

/// A choice in the tray's menu.
#[derive(Clone, Copy, Debug, PartialEq, Eq, Structural)]
pub enum Menyvalg {
    Apne,
    Avslutt,
    Ukjent,
}

/// Which choice in the tray's menu was made.
pub fn menyvalg(id: &str) -> (r: Menyvalg)
    ensures
        r == if id@ == "apne"@ {
            Menyvalg::Apne
        } else if id@ == "avslutt"@ {
            Menyvalg::Avslutt
        } else {
            Menyvalg::Ukjent
        },
{
    if lik(id, "apne") {
        Menyvalg::Apne
    } else if lik(id, "avslutt") {
        Menyvalg::Avslutt
    } else {
        Menyvalg::Ukjent
    }
}

/// Whether the application was started to stay in the tray.
pub fn startet_skjult(args: &Vec<String>) -> (r: bool)
    ensures
        r == tekster(args@).contains("--skjult"@),
{
    let ghost alle = tekster(args@);
    let mut i: usize = 0;
    while i < args.len()
        invariant
            i <= args@.len(),
            alle == tekster(args@),
            forall|k: int| 0 <= k < i ==> #[trigger] alle[k] != "--skjult"@,
        decreases args@.len() - i,
    {
        assert(alle[i as int] == args@[i as int]@);
        if lik(args[i].as_str(), "--skjult") {
            return true;
        }
        i += 1;
    }
    false
}

/// The name of the machine, from the two places where a system may keep it.
pub fn maskinnavn(computername: Option<String>, hostname: Option<String>) -> (r: String)
    ensures
        r@ == match (valgfri(computername), valgfri(hostname)) {
            (Some(n), _) => n,
            (None, Some(n)) => n,
            (None, None) => "denne maskinen"@,
        },
{
    match (computername, hostname) {
        (Some(n), _) => n,
        (None, Some(n)) => n,
        (None, None) => "denne maskinen".to_owned(),
    }
}

/// A kind of system.
#[derive(Clone, Copy, Debug, PartialEq, Eq, Structural)]
pub enum System {
    Windows,
    Mac,
    Linux,
}

/// A program to run.
#[derive(Debug)]
pub struct Kommando {
    pub program: String,
    /// Its arguments; on Windows they are handed over as they are, without more quotes.
    pub argumenter: Vec<String>,
}

/// A text without a character.
pub open spec fn uten_tegn(s: Seq<char>, c: char) -> Seq<char>
    decreases s.len(),
{
    if s.len() == 0 {
        Seq::empty()
    } else if s.last() == c {
        uten_tegn(s.drop_last(), c)
    } else {
        uten_tegn(s.drop_last(), c).push(s.last())
    }
}

/// Removes a character from a text.
pub fn fjern_tegn(s: &str, c: char) -> (r: String)
    ensures
        r@ == uten_tegn(s@, c),
{
    let v = tegn(s);
    let mut ut = String::new();
    let mut i: usize = 0;
    while i < v.len()
        invariant
            v@ == s@,
            i <= v@.len(),
            ut@ == uten_tegn(s@.take(i as int), c),
        decreases v@.len() - i,
    {
        assert(s@.take(i + 1).drop_last() =~= s@.take(i as int));
        if v[i] != c {
            ut.push(v[i]);
        }
        i += 1;
    }
    assert(s@.take(i as int) =~= s@);
    ut
}

/// A path as the Windows file browser wants it: with backslashes, and without quotes of its
/// own.
pub open spec fn windowssti(sti: Seq<char>) -> Seq<char> {
    uten_tegn(byttet(sti, seq!['/'], '\\'), '"')
}

/// The program that shows a path in the file browser, and its arguments: a folder is
/// opened, a file is shown in its folder.
pub open spec fn visning(
    system: System,
    sti: Seq<char>,
    er_mappe: bool,
    forelder: Seq<char>,
) -> (Seq<char>, Seq<Seq<char>>) {
    match system {
        System::Windows => if er_mappe {
            ("explorer.exe"@, seq!["\""@ + windowssti(sti) + "\""@])
        } else {
            ("explorer.exe"@, seq!["/select,\""@ + windowssti(sti) + "\""@])
        },
        System::Mac => if er_mappe {
            ("open"@, seq![sti])
        } else {
            ("open"@, seq!["-R"@, sti])
        },
        System::Linux => if er_mappe {
            ("xdg-open"@, seq![sti])
        } else {
            ("xdg-open"@, seq![forelder])
        },
    }
}

/// How a path is shown in the file browser; it must be there.
pub fn vis_i_utforsker(
    system: System,
    sti: &str,
    finnes: bool,
    er_mappe: bool,
    forelder: &str,
) -> (r: Result<Kommando, String>)
    ensures
        match r {
            Ok(k) => finnes && (k.program@, tekster(k.argumenter@)) == visning(
                system,
                sti@,
                er_mappe,
                forelder@,
            ),
            Err(t) => !finnes && t@ == "finnes ikke"@,
        },
{
    if !finnes {
        return Err("finnes ikke".to_owned());
    }
    let mut argumenter: Vec<String> = Vec::new();
    let program = match system {
        System::Windows => {
            let skraa: [char; 1] = ['/'];
            assert(skraa@ =~= seq!['/']);
            let mut arg = if er_mappe {
                "\"".to_owned()
            } else {
                "/select,\"".to_owned()
            };
            arg.append(fjern_tegn(bytt(sti, &skraa, '\\').as_str(), '"').as_str());
            arg.append("\"");
            argumenter.push(arg);
            "explorer.exe".to_owned()
        },
        System::Mac => {
            if !er_mappe {
                argumenter.push("-R".to_owned());
            }
            argumenter.push(sti.to_owned());
            "open".to_owned()
        },
        System::Linux => {
            if er_mappe {
                argumenter.push(sti.to_owned());
            } else {
                argumenter.push(forelder.to_owned());
            }
            "xdg-open".to_owned()
        },
    };
    assert(tekster(argumenter@) =~= visning(system, sti@, er_mappe, forelder@).1);
    Ok(Kommando { program, argumenter })
}

/// Whether a file is a download that is not finished, by its name: it ends as such a file
/// does, and does not consist of the ending alone.
pub open spec fn partnavn(navn: Seq<char>) -> bool {
    har_suffiks(navn, ".part"@) && navn.len() > 5
}

/// The age, in nanoseconds, from which on an unfinished download is given up; at least a
/// day.
pub open spec fn grense_ns(dager: int) -> int {
    if dager < 1 {
        86_400_000_000_000
    } else {
        dager * 86_400_000_000_000
    }
}

/// Whether something in a download folder is to be deleted: only a file, only an unfinished
/// download, and only one that has not been touched for so many days. The age is unknown
/// where the file cannot tell it or was touched later than the clock says.
pub fn skal_ryddes(navn: &str, er_fil: bool, alder_ns: Option<u128>, dager: u64) -> (r: bool)
    requires
        dager * 86_400 <= u64::MAX,
    ensures
        r == (partnavn(navn@) && er_fil && alder_ns is Some && alder_ns->0 > grense_ns(
            dager as int,
        )),
{
    proof {
        reveal_strlit(".part");
    }
    if !slutter_med(navn, ".part") || tegn(navn).len() <= 5 || !er_fil {
        return false;
    }
    let grense: u128 = if dager < 1 {
        86_400_000_000_000
    } else {
        dager as u128 * 86_400_000_000_000
    };
    match alder_ns {
        Some(alder) => alder > grense,
        None => false,
    }
}

/// What is cut off a text is its end: the rest is its beginning, and as long as may be.
pub proof fn bare_enden_kuttes(s: Seq<char>, n: int)
    requires
        0 <= n,
    ensures
        forste_tegn(s, n).len() <= n,
        forste_tegn(s, n).len() <= s.len(),
        forste_tegn(s, n).len() == n || forste_tegn(s, n) == s,
        forall|i: int| 0 <= i < forste_tegn(s, n).len() ==> #[trigger] forste_tegn(s, n)[i] == s[i],
{
}

/// Without a character, a text is all the others that it holds, in order.
pub proof fn resten_blir_igjen(s: Seq<char>, c: char)
    ensures
        uten_tegn(s, c) == s.filter(|x: char| x != c),
        !uten_tegn(s, c).contains(c),
        !s.contains(c) ==> uten_tegn(s, c) == s,
    decreases s.len(),
{
    reveal(Seq::filter);
    if s.len() > 0 {
        let d = s.drop_last();
        resten_blir_igjen(d, c);
        let u = uten_tegn(d, c);
        if uten_tegn(s, c).contains(c) {
            let i = choose|i: int| 0 <= i < uten_tegn(s, c).len() && uten_tegn(s, c)[i] == c;
            if i < u.len() {
                assert(u[i] == c);
            }
        }
        if !s.contains(c) {
            assert(s[s.len() - 1] != c);
            if d.contains(c) {
                let i = choose|i: int| 0 <= i < d.len() && d[i] == c;
                assert(s[i] == c);
            }
            assert(s =~= d.push(s.last()));
        }
    } else {
        assert(s.filter(|x: char| x != c) =~= Seq::empty());
        assert(s =~= Seq::empty());
    }
}

/// A path for the Windows file browser holds neither a slash nor a quote, so that the quotes
/// around it hold all of it; where it held neither before, it is as it was.
pub proof fn windowssti_er_trygg(sti: Seq<char>)
    ensures
        !windowssti(sti).contains('/'),
        !windowssti(sti).contains('"'),
        !sti.contains('/') && !sti.contains('"') ==> windowssti(sti) == sti,
        !sti.contains('"') ==> windowssti(sti).len() == sti.len() && forall|i: int|
            0 <= i < sti.len() ==> #[trigger] windowssti(sti)[i] == if sti[i] == '/' {
                '\\'
            } else {
                sti[i]
            },
{
    let fra = seq!['/'];
    let b = byttet(sti, fra, '\\');
    assert(fra[0] == '/');
    resten_blir_igjen(b, '"');
    let u = windowssti(sti);
    if u.contains('/') {
        let i = choose|i: int| 0 <= i < u.len() && u[i] == '/';
        let p = |x: char| x != '"';
        b.lemma_filter_contains_rev(p, '/');
        let k = choose|k: int| 0 <= k < b.len() && b[k] == '/';
        assert(b[k] != '/');
    }
    if !sti.contains('"') {
        if b.contains('"') {
            let i = choose|i: int| 0 <= i < b.len() && b[i] == '"';
            assert(sti[i] == '"');
        }
        if !sti.contains('/') {
            assert forall|i: int| 0 <= i < sti.len() implies b[i] == #[trigger] sti[i] by {
                assert(sti.contains(sti[i]));
            }
            assert(b =~= sti);
        }
    }
}

/// A folder is opened, and a file is shown in its folder: each system has one program for
/// both, and is told which it is. The path stands in the last argument, but on Linux, where
/// the folder of a file is opened.
pub proof fn mappe_apnes_og_fil_vises(system: System, sti: Seq<char>, forelder: Seq<char>)
    ensures
        ({
            let m = visning(system, sti, true, forelder);
            let f = visning(system, sti, false, forelder);
            &&& m.0 == f.0
            &&& m.1.len() == 1
            &&& system == System::Windows ==> m.0 == "explorer.exe"@ && m.1[0] == "\""@
                + windowssti(sti) + "\""@ && f.1 == seq!["/select,"@ + m.1[0]]
            &&& system == System::Mac ==> m.0 == "open"@ && m.1[0] == sti && f.1 == seq![
                "-R"@,
                m.1[0],
            ]
            &&& system == System::Linux ==> m.0 == "xdg-open"@ && m.1[0] == sti && f.1 == seq![
                forelder,
            ]
        }),
{
    reveal_strlit("/select,\"");
    reveal_strlit("/select,");
    reveal_strlit("\"");
    let q = "\""@ + windowssti(sti) + "\""@;
    assert("/select,\""@ + windowssti(sti) + "\""@ =~= "/select,"@ + q);
}

/// An unfinished download is one with a name of its own before the ending, and is given up
/// after so many days, but never before a day.
pub proof fn bare_gamle_rester_ryddes(navn: Seq<char>, dager: int)
    ensures
        partnavn(navn + ".part"@) <==> navn.len() > 0,
        !har_suffiks(navn, ".part"@) ==> !partnavn(navn),
        grense_ns(dager) >= 24 * 60 * 60 * 1_000_000_000,
        dager >= 1 ==> grense_ns(dager) == dager * (24 * 60 * 60 * 1_000_000_000),
{
    reveal_strlit(".part");
    let n = navn + ".part"@;
    assert(n.skip(n.len() - 5) =~= ".part"@);
    assert(24 * 60 * 60 * 1_000_000_000 == 86_400_000_000_000int);
}

} // verus!
