//! Reports on a running transfer, and the lines of a job's log.
use crate::tekst::{desimal, desimaler, har_suffiks, lik, tegn, tekster};
use vstd::prelude::*;
use vstd::string::*;

verus! {

/// What a transfer is doing.
#[derive(Clone, Copy, Debug, PartialEq, Eq, Structural)]
pub enum Status {
    Laster,
    Ferdig,
    Verifisert,
    Hoppet,
    Feil,
    Hash,
    Kobler,
    Setter,
    Proxy,
    Fullfor,
    Thumbs,
}

/// The word for what a transfer is doing.
pub open spec fn statusord(s: Status) -> Seq<char> {
    match s {
        Status::Laster => "laster"@,
        Status::Ferdig => "ferdig"@,
        Status::Verifisert => "verifisert"@,
        Status::Hoppet => "hoppet"@,
        Status::Feil => "feil"@,
        Status::Hash => "hash"@,
        Status::Kobler => "kobler"@,
        Status::Setter => "setter"@,
        Status::Proxy => "proxy"@,
        Status::Fullfor => "fullfor"@,
        Status::Thumbs => "thumbs"@,
    }
}

impl Status {
    /// The word for what a transfer is doing.
    pub fn ord(self) -> (r: &'static str)
        ensures
            r@ == statusord(self),
    {
        match self {
            Status::Laster => "laster",
            Status::Ferdig => "ferdig",
            Status::Verifisert => "verifisert",
            Status::Hoppet => "hoppet",
            Status::Feil => "feil",
            Status::Hash => "hash",
            Status::Kobler => "kobler",
            Status::Setter => "setter",
            Status::Proxy => "proxy",
            Status::Fullfor => "fullfor",
            Status::Thumbs => "thumbs",
        }
    }
}

/// How far a transfer has come.
#[derive(Clone, Copy, Debug, PartialEq, Eq, Structural)]
pub struct Melding {
    pub hentet: u64,
    pub total: u64,
    pub status: Status,
}

/// How far the transfer of one file has come, as the window is told.
#[derive(Clone, Debug)]
pub struct Framdrift {
    pub id: String,
    pub hentet: u64,
    pub total: u64,
    pub status: Status,
    pub feil: Option<String>,
}

impl Framdrift {
    /// A report on the transfer of the file `id`.
    pub fn ny(id: &str, m: Melding) -> (r: Framdrift)
        ensures
            r.id@ == id@,
            r.hentet == m.hentet,
            r.total == m.total,
            r.status == m.status,
            r.feil is None,
    {
        Framdrift {
            id: id.to_owned(),
            hentet: m.hentet,
            total: m.total,
            status: m.status,
            feil: None,
        }
    }

    /// The report that the transfer of the file `id` failed.
    pub fn feilet(id: &str, total: u64, feil: &str) -> (r: Framdrift)
        ensures
            r.id@ == id@,
            r.hentet == 0,
            r.total == total,
            r.status == Status::Feil,
            r.feil is Some,
            r.feil->0@ == feil@,
    {
        Framdrift {
            id: id.to_owned(),
            hentet: 0,
            total,
            status: Status::Feil,
            feil: Some(feil.to_owned()),
        }
    }
}

/// A line of the log as it stands in the file: the time stamp, the text, a line feed.
pub fn logglinje(stempel: &str, linje: &str) -> (r: String)
    ensures
        r@ == stempel@ + " "@ + linje@ + "\n"@,
{
    let mut ut = stempel.to_owned();
    ut.append(" ");
    ut.append(linje);
    ut.append("\n");
    ut
}

/// The three lines at the head of a job's log.
pub fn logghode(versjon: &str, os: &str, jobbnavn: &str, antall: usize, maal: &str) -> (r: Vec<
    String,
>)
    ensures
        tekster(r@) == seq![
            "Rawskap Transfer - "@ + versjon@ + " ("@ + os@ + ")"@,
            "Jobb: "@ + jobbnavn@ + " | "@ + desimaler(antall as nat) + " filer | mål: "@ + maal@,
            Seq::empty(),
        ],
{
    let mut a = "Rawskap Transfer - ".to_owned();
    a.append(versjon);
    a.append(" (");
    a.append(os);
    a.append(")");
    let mut b = "Jobb: ".to_owned();
    b.append(jobbnavn);
    b.append(" | ");
    b.append(desimal(antall as u64).as_str());
    b.append(" filer | mål: ");
    b.append(maal);
    let mut ut: Vec<String> = Vec::new();
    ut.push(a);
    ut.push(b);
    ut.push(String::new());
    assert(tekster(ut@) =~= seq![
        "Rawskap Transfer - "@ + versjon@ + " ("@ + os@ + ")"@,
        "Jobb: "@ + jobbnavn@ + " | "@ + desimaler(antall as nat) + " filer | mål: "@ + maal@,
        Seq::empty(),
    ]);
    ut
}

/// The line that says that a file's download has begun.
pub open spec fn startlinje(id: Seq<char>, sti: Seq<char>) -> Seq<char> {
    "🚀 Startet                | ID: "@ + id + " | "@ + sti
}

/// Writes the line that says that a file's download has begun.
pub fn logg_startet(id: &str, sti: &str) -> (r: String)
    ensures
        r@ == startlinje(id@, sti@),
{
    let mut ut = "🚀 Startet                | ID: ".to_owned();
    ut.append(id);
    ut.append(" | ");
    ut.append(sti);
    ut
}

/// The text of a transfer that the user stopped.
pub open spec fn avbrutt_tekst() -> Seq<char> {
    "Avbrutt"@
}

/// `s` followed by spaces up to `bredde` characters.
pub open spec fn fylt_bak(s: Seq<char>, bredde: nat) -> Seq<char> {
    if s.len() >= bredde {
        s
    } else {
        s + Seq::new((bredde - s.len()) as nat, |i: int| ' ')
    }
}

/// Spaces, and `s` at their end, `bredde` characters in all.
pub open spec fn fylt_foran(s: Seq<char>, bredde: nat) -> Seq<char> {
    if s.len() >= bredde {
        s
    } else {
        Seq::new((bredde - s.len()) as nat, |i: int| ' ') + s
    }
}

fn mellomrom(n: usize) -> (r: String)
    ensures
        r@ == Seq::new(n as nat, |i: int| ' '),
{
    let mut ut = String::new();
    let mut i: usize = 0;
    while i < n
        invariant
            i <= n,
            ut@ == Seq::new(i as nat, |k: int| ' '),
        decreases n - i,
    {
        ut.push(' ');
        i += 1;
        assert(ut@ =~= Seq::new(i as nat, |k: int| ' '));
    }
    assert(ut@ =~= Seq::new(n as nat, |k: int| ' '));
    ut
}

/// The line that says that a file's download failed or was stopped.
pub open spec fn feillinje(id: Seq<char>, feil: Seq<char>) -> Seq<char> {
    "❌ "@ + fylt_bak(
        if feil == avbrutt_tekst() {
            "Avbrutt"@
        } else {
            "Feilet"@
        },
        22,
    ) + " | ID: "@ + id + " | "@ + feil
}

/// Writes the line that says that a file's download failed or was stopped.
pub fn logg_feilet(id: &str, feil: &str) -> (r: String)
    ensures
        r@ == feillinje(id@, feil@),
{
    let ord = if lik(feil, "Avbrutt") {
        "Avbrutt"
    } else {
        "Feilet"
    };
    proof {
        reveal_strlit("Avbrutt");
        reveal_strlit("Feilet");
    }
    let n: usize = tegn(ord).len();
    let mut ut = "❌ ".to_owned();
    ut.append(ord);
    ut.append(mellomrom(22 - n).as_str());
    ut.append(" | ID: ");
    ut.append(id);
    ut.append(" | ");
    ut.append(feil);
    assert(fylt_bak(ord@, 22) =~= ord@ + Seq::new((22 - n) as nat, |i: int| ' '));
    ut
}

/// The line that says that a file is complete: by its size, or by its checksum where the
/// server has one.
pub open spec fn ferdiglinje(
    id: Seq<char>,
    bytes: nat,
    xxh64: Seq<char>,
    sti: Seq<char>,
) -> Seq<char> {
    if xxh64.len() == 0 {
        "✅ Ferdig & størrelse ok  | "@ + fylt_foran(desimaler(bytes), 12) + " B | ID: "@ + id
            + " | "@ + sti
    } else {
        "✅ Ferdig & verifisert   | xxHash: "@ + xxh64 + " | ID: "@ + id + " | "@ + sti
    }
}

/// Writes the line that says that a file is complete.
pub fn logg_ferdig(id: &str, bytes: u64, xxh64: &str, sti: &str) -> (r: String)
    ensures
        r@ == ferdiglinje(id@, bytes as nat, xxh64@, sti@),
{
    if xxh64.is_empty() {
        let tall = desimal(bytes);
        let n: usize = tegn(tall.as_str()).len();
        let mut ut = "✅ Ferdig & størrelse ok  | ".to_owned();
        if n < 12 {
            ut.append(mellomrom(12 - n).as_str());
        }
        ut.append(tall.as_str());
        ut.append(" B | ID: ");
        ut.append(id);
        ut.append(" | ");
        ut.append(sti);
        assert(n < 12 ==> fylt_foran(tall@, 12) =~= Seq::new((12 - n) as nat, |i: int| ' ')
            + tall@);
        ut
    } else {
        let mut ut = "✅ Ferdig & verifisert   | xxHash: ".to_owned();
        ut.append(xxh64);
        ut.append(" | ID: ");
        ut.append(id);
        ut.append(" | ");
        ut.append(sti);
        ut
    }
}

/// How many of the errors say that the user stopped the transfer.
pub open spec fn antall_avbrutt(feil: Seq<Seq<char>>) -> nat
    decreases feil.len(),
{
    if feil.len() == 0 {
        0
    } else {
        antall_avbrutt(feil.drop_last()) + if feil.last() == avbrutt_tekst() {
            1nat
        } else {
            0
        }
    }
}

/// No more transfers were stopped than failed in all, so the three counts of a summary
/// add up to its total.
pub proof fn avbrutt_er_blant_feilene(feil: Seq<Seq<char>>)
    ensures
        antall_avbrutt(feil) <= feil.len(),
    decreases feil.len(),
{
    if feil.len() > 0 {
        avbrutt_er_blant_feilene(feil.drop_last());
    }
}

/// The summary of a job: how many files in all, how many were downloaded, how many
/// failed, how many were stopped.
pub open spec fn sammendrag(ok: nat, feil: Seq<Seq<char>>) -> Seq<char> {
    let avbrutt = antall_avbrutt(feil);
    "\n\tTotalt: "@ + desimaler(ok + feil.len()) + "\n\tLastet ned: "@ + desimaler(ok)
        + "\n\tFeilet: "@ + desimaler((feil.len() - avbrutt) as nat) + "\n\tAvbrutt: "@ + desimaler(
        avbrutt,
    )
}

/// The lines at the end of a job's log.
pub fn loggslutt(ok: usize, feil: &Vec<String>) -> (r: Vec<String>)
    requires
        ok + feil@.len() <= u64::MAX,
    ensures
        tekster(r@) == seq![
            "🏁 ===== nedlasting ferdig ====="@,
            sammendrag(ok as nat, tekster(feil@)),
        ],
{
    let ghost alle = tekster(feil@);
    let mut avbrutt: u64 = 0;
    let mut i: usize = 0;
    while i < feil.len()
        invariant
            i <= feil@.len(),
            alle == tekster(feil@),
            avbrutt <= i,
            avbrutt == antall_avbrutt(alle.take(i as int)),
        decreases feil@.len() - i,
    {
        assert(alle.take(i + 1).drop_last() =~= alle.take(i as int));
        assert(alle.take(i + 1).last() == feil@[i as int]@);
        if lik(feil[i].as_str(), "Avbrutt") {
            avbrutt += 1;
        }
        i += 1;
    }
    assert(alle.take(i as int) =~= alle);
    let n: u64 = feil.len() as u64;
    let mut s = "\n\tTotalt: ".to_owned();
    s.append(desimal(ok as u64 + n).as_str());
    s.append("\n\tLastet ned: ");
    s.append(desimal(ok as u64).as_str());
    s.append("\n\tFeilet: ");
    s.append(desimal(n - avbrutt).as_str());
    s.append("\n\tAvbrutt: ");
    s.append(desimal(avbrutt).as_str());
    let mut ut: Vec<String> = Vec::new();
    ut.push("🏁 ===== nedlasting ferdig =====".to_owned());
    ut.push(s);
    assert(tekster(ut@) =~= seq![
        "🏁 ===== nedlasting ferdig ====="@,
        sammendrag(ok as nat, tekster(feil@)),
    ]);
    ut
}

/// Each thing that a transfer does has a word of its own.
pub proof fn hvert_sitt_statusord(a: Status, b: Status)
    requires
        statusord(a) == statusord(b),
    ensures
        a == b,
{
    reveal_strlit("laster");
    reveal_strlit("ferdig");
    reveal_strlit("verifisert");
    reveal_strlit("hoppet");
    reveal_strlit("feil");
    reveal_strlit("hash");
    reveal_strlit("kobler");
    reveal_strlit("setter");
    reveal_strlit("proxy");
    reveal_strlit("fullfor");
    reveal_strlit("thumbs");
    assert("laster"@.len() == 6 && "laster"@[0] == 'l' && "laster"@[3] == 't');
    assert("ferdig"@.len() == 6 && "ferdig"@[0] == 'f' && "ferdig"@[3] == 'd');
    assert("verifisert"@.len() == 10 && "verifisert"@[0] == 'v' && "verifisert"@[3] == 'i');
    assert("hoppet"@.len() == 6 && "hoppet"@[0] == 'h' && "hoppet"@[3] == 'p');
    assert("feil"@.len() == 4 && "feil"@[0] == 'f' && "feil"@[3] == 'l');
    assert("hash"@.len() == 4 && "hash"@[0] == 'h' && "hash"@[3] == 'h');
    assert("kobler"@.len() == 6 && "kobler"@[0] == 'k' && "kobler"@[3] == 'l');
    assert("setter"@.len() == 6 && "setter"@[0] == 's' && "setter"@[3] == 't');
    assert("proxy"@.len() == 5 && "proxy"@[0] == 'p' && "proxy"@[3] == 'x');
    assert("fullfor"@.len() == 7 && "fullfor"@[0] == 'f' && "fullfor"@[3] == 'l');
    assert("thumbs"@.len() == 6 && "thumbs"@[0] == 't' && "thumbs"@[3] == 'm');
}

/// A text that is filled up with spaces is at least so wide, and no wider where it was not;
/// the text stands at one end, and the rest is spaces.
pub proof fn fylles_med_mellomrom(s: Seq<char>, bredde: nat)
    ensures
        ({
            let n = if s.len() >= bredde {
                s.len()
            } else {
                bredde
            };
            let b = fylt_bak(s, bredde);
            let f = fylt_foran(s, bredde);
            &&& b.len() == n && f.len() == n
            &&& b.take(s.len() as int) == s
            &&& f.skip(n - s.len()) == s
            &&& forall|i: int| s.len() <= i < n ==> #[trigger] b[i] == ' '
            &&& forall|i: int| 0 <= i < n - s.len() ==> #[trigger] f[i] == ' '
        }),
{
    let n = fylt_foran(s, bredde).len();
    assert(fylt_bak(s, bredde).take(s.len() as int) =~= s);
    assert(fylt_foran(s, bredde).skip(n - s.len()) =~= s);
}

/// Those that the user stopped are counted among the failures by their words alone.
pub proof fn avbrutte_telles_paa_ordet(feil: Seq<Seq<char>>)
    ensures
        antall_avbrutt(feil) == feil.filter(|f: Seq<char>| f == "Avbrutt"@).len(),
    decreases feil.len(),
{
    reveal(Seq::filter);
    if feil.len() > 0 {
        avbrutte_telles_paa_ordet(feil.drop_last());
    }
}

/// Each line of the log names the file that it is about, and says what became of it: where
/// the file is, or what went wrong.
pub proof fn linjene_nevner_fila(
    id: Seq<char>,
    bytes: nat,
    xxh64: Seq<char>,
    sti: Seq<char>,
    feil: Seq<char>,
)
    ensures
        har_suffiks(startlinje(id, sti), " | ID: "@ + id + " | "@ + sti),
        har_suffiks(feillinje(id, feil), " | ID: "@ + id + " | "@ + feil),
        har_suffiks(ferdiglinje(id, bytes, xxh64, sti), " | ID: "@ + id + " | "@ + sti),
        xxh64.len() > 0 ==> har_suffiks(
            ferdiglinje(id, bytes, xxh64, sti),
            "xxHash: "@ + xxh64 + " | ID: "@ + id + " | "@ + sti,
        ),
        xxh64.len() == 0 ==> har_suffiks(
            ferdiglinje(id, bytes, xxh64, sti),
            desimaler(bytes) + " B | ID: "@ + id + " | "@ + sti,
        ),
{
    reveal_strlit("🚀 Startet                | ID: ");
    reveal_strlit(" | ID: ");
    reveal_strlit(" B | ID: ");
    reveal_strlit("✅ Ferdig & verifisert   | xxHash: ");
    reveal_strlit("xxHash: ");
    let a = startlinje(id, sti);
    let x = " | ID: "@ + id + " | "@ + sti;
    assert(a.skip(a.len() - x.len()) =~= x);
    let b = feillinje(id, feil);
    let y = " | ID: "@ + id + " | "@ + feil;
    assert(b.skip(b.len() - y.len()) =~= y);
    let c = ferdiglinje(id, bytes, xxh64, sti);
    let z = " | ID: "@ + id + " | "@ + sti;
    assert(c.skip(c.len() - z.len()) =~= z);
    if xxh64.len() > 0 {
        let w = "xxHash: "@ + xxh64 + " | ID: "@ + id + " | "@ + sti;
        assert(c.skip(c.len() - w.len()) =~= w);
    } else {
        let f = fylt_foran(desimaler(bytes), 12);
        fylles_med_mellomrom(desimaler(bytes), 12);
        let hale = " B | ID: "@ + id + " | "@ + sti;
        let w = desimaler(bytes) + hale;
        assert(c =~= "✅ Ferdig & størrelse ok  | "@ + f + hale);
        assert forall|i: int| 0 <= i < w.len() implies c[c.len() - w.len() + i] == w[i] by {
            if i < desimaler(bytes).len() {
                assert(f.skip(f.len() - desimaler(bytes).len())[i] == desimaler(bytes)[i]);
            }
        }
        assert(desimaler(bytes) + " B | ID: "@ + id + " | "@ + sti =~= w);
        assert(c.skip(c.len() - w.len()) =~= w);
    }
}

} // verus!
