//! A job of many files: how each is handled, how often it is tried, and what the job came
//! to.
use crate::framdrift::{
    antall_avbrutt, avbrutt_er_blant_feilene, avbrutt_tekst, feillinje, ferdiglinje, logg_feilet,
    linjene_nevner_fila,
    logg_ferdig, logg_startet, loggslutt, sammendrag, startlinje, Melding, Status,
};
use crate::nedlasting::FORSOK_NED;
use crate::opplasting::FORSOK_OPP;
use crate::tekst::{desimaler, har_suffiks, tekster};
use vstd::prelude::*;
use vstd::string::*;

verus! {

/// How one file of a job is to be handled.
#[derive(Clone, Copy, Debug, PartialEq, Eq, Structural)]
pub struct Oppgave {
    /// The size that is reported.
    pub bytes: u64,
    /// How many times the file is tried.
    pub maks: u32,
    /// Whether its folder is made first.
    pub mappe: bool,
    /// Whether there is a pause after a try that failed.
    pub pause: bool,
}

/// A download of this size: it is tried three times, with a pause after each try that
/// failed.
pub fn nedlasting(bytes: u64) -> (r: Oppgave)
    ensures
        r == (Oppgave { bytes, maks: FORSOK_NED, mappe: false, pause: true }),
{
    Oppgave { bytes, maks: FORSOK_NED, mappe: false, pause: true }
}

/// An upload of this size: its folder is made first, and it is tried twice, the second time
/// at once.
pub fn opplasting(bytes: u64) -> (r: Oppgave)
    ensures
        r == (Oppgave { bytes, maks: FORSOK_OPP, mappe: true, pause: false }),
{
    Oppgave { bytes, maks: FORSOK_OPP, mappe: true, pause: false }
}

/// What one file of a job waits for.
#[derive(Clone, Copy, Debug, PartialEq, Eq, Structural)]
pub enum Trinn {
    /// Its turn.
    Tur,
    /// Its folder.
    Mappe,
    /// The try with this number, counted from one.
    Forsok { n: u32 },
    /// The end of the pause after the try with this number.
    Pause { n: u32 },
    Over,
}

/// What came of an action.
#[derive(Clone, Copy, Debug, PartialEq, Eq, Structural)]
pub enum Hendelse {
    /// It is the file's turn; whether the user has asked to stop.
    Tur { avbrutt: bool },
    /// Whether the folder is there.
    Mappe { ok: bool },
    /// Whether the try went well, and whether the user has asked to stop.
    Forsokt { ok: bool, avbrutt: bool },
    /// The pause is over.
    Pause,
}

/// How it ended.
#[derive(Clone, Copy, Debug, PartialEq, Eq, Structural)]
pub enum Slutt {
    Gikk,
    /// The user had asked to stop before it was begun; the window is not told of this.
    AldriBegynt,
    /// It failed, with the words of what was done last.
    Feilet,
}

/// What a job's log is told of a file.
#[derive(Clone, Copy, Debug, PartialEq, Eq, Structural)]
pub enum Post {
    /// Its turn has come.
    Startet,
    /// It has ended.
    Endte(Slutt),
}

/// What the application is to do next.
#[derive(Clone, Copy, Debug, PartialEq, Eq, Structural)]
pub enum Handling {
    /// See whether the user has asked to stop.
    SeEtterAvbrudd,
    LagMappe,
    Forsok,
    Pause,
    Ferdig(Slutt),
}

/// A step: what to report and what to put in the log, and what to do after that.
#[derive(Clone, Copy, Debug, PartialEq, Eq, Structural)]
pub struct Steg {
    pub melding: Option<Melding>,
    pub logg: Option<Post>,
    pub handling: Handling,
}

/// Whether an event can come of what is waited for.
pub open spec fn mulig(t: Trinn, h: Hendelse) -> bool {
    match (t, h) {
        (Trinn::Tur, Hendelse::Tur { .. }) => true,
        (Trinn::Mappe, Hendelse::Mappe { .. }) => true,
        (Trinn::Forsok { .. }, Hendelse::Forsokt { .. }) => true,
        (Trinn::Pause { .. }, Hendelse::Pause) => true,
        _ => false,
    }
}

/// A step without a report.
pub open spec fn stille(handling: Handling) -> Steg {
    Steg { melding: None, logg: None, handling }
}

/// The last step.
pub open spec fn ferdig(slutt: Slutt) -> Steg {
    Steg { melding: None, logg: Some(Post::Endte(slutt)), handling: Handling::Ferdig(slutt) }
}

/// The first step, when the file's turn has come.
pub open spec fn forste_steg() -> Steg {
    Steg { melding: None, logg: Some(Post::Startet), handling: Handling::SeEtterAvbrudd }
}

/// The step after the try with number `n` failed: another, or the end.
pub open spec fn igjen(o: Oppgave, n: u32) -> (Trinn, Steg) {
    if n < o.maks {
        (Trinn::Forsok { n: (n + 1) as u32 }, stille(Handling::Forsok))
    } else {
        (Trinn::Over, ferdig(Slutt::Feilet))
    }
}

/// The next step with one file of a job.
pub open spec fn neste(o: Oppgave, t: Trinn, h: Hendelse) -> (Trinn, Steg) {
    match (t, h) {
        (Trinn::Tur, Hendelse::Tur { avbrutt }) => if avbrutt {
            (Trinn::Over, ferdig(Slutt::AldriBegynt))
        } else {
            let melding = Some(Melding { hentet: 0, total: o.bytes, status: Status::Laster });
            if o.mappe {
                (Trinn::Mappe, (Steg { melding, logg: None, handling: Handling::LagMappe }))
            } else {
                (Trinn::Forsok { n: 1 }, (Steg { melding, logg: None, handling: Handling::Forsok }))
            }
        },
        (Trinn::Mappe, Hendelse::Mappe { ok }) => if ok {
            (Trinn::Forsok { n: 1 }, stille(Handling::Forsok))
        } else {
            (Trinn::Over, ferdig(Slutt::Feilet))
        },
        (Trinn::Forsok { n }, Hendelse::Forsokt { ok, avbrutt }) => if ok {
            (Trinn::Over, ferdig(Slutt::Gikk))
        } else if avbrutt {
            (Trinn::Over, ferdig(Slutt::Feilet))
        } else if o.pause {
            (Trinn::Pause { n }, stille(Handling::Pause))
        } else {
            igjen(o, n)
        },
        (Trinn::Pause { n }, Hendelse::Pause) => igjen(o, n),
        _ => (Trinn::Over, ferdig(Slutt::Feilet)),
    }
}

/// Whether an event can come of what is waited for.
pub fn kan_motta(t: Trinn, h: Hendelse) -> (r: bool)
    ensures
        r == mulig(t, h),
{
    match (t, h) {
        (Trinn::Tur, Hendelse::Tur { avbrutt: _ }) => true,
        (Trinn::Mappe, Hendelse::Mappe { ok: _ }) => true,
        (Trinn::Forsok { n: _ }, Hendelse::Forsokt { ok: _, avbrutt: _ }) => true,
        (Trinn::Pause { n: _ }, Hendelse::Pause) => true,
        _ => false,
    }
}

fn stille_steg(handling: Handling) -> (r: Steg)
    ensures
        r == stille(handling),
{
    Steg { melding: None, logg: None, handling }
}

fn siste_steg(slutt: Slutt) -> (r: Steg)
    ensures
        r == ferdig(slutt),
{
    Steg { melding: None, logg: Some(Post::Endte(slutt)), handling: Handling::Ferdig(slutt) }
}

/// The turn of a file has come.
pub fn begynn() -> (r: (Trinn, Steg))
    ensures
        r == (Trinn::Tur, forste_steg()),
{
    (
        Trinn::Tur,
        Steg { melding: None, logg: Some(Post::Startet), handling: Handling::SeEtterAvbrudd },
    )
}

fn nytt_forsok(o: Oppgave, n: u32) -> (r: (Trinn, Steg))
    ensures
        r == igjen(o, n),
{
    if n < o.maks {
        (Trinn::Forsok { n: n + 1 }, stille_steg(Handling::Forsok))
    } else {
        (Trinn::Over, siste_steg(Slutt::Feilet))
    }
}

/// Takes the next step with one file of a job.
pub fn behandle(o: Oppgave, t: Trinn, h: Hendelse) -> (r: (Trinn, Steg))
    requires
        mulig(t, h),
    ensures
        r == neste(o, t, h),
{
    match (t, h) {
        (Trinn::Tur, Hendelse::Tur { avbrutt }) => {
            if avbrutt {
                (Trinn::Over, siste_steg(Slutt::AldriBegynt))
            } else {
                let melding = Some(
                    Melding { hentet: 0, total: o.bytes, status: Status::Laster },
                );
                if o.mappe {
                    (Trinn::Mappe, Steg { melding, logg: None, handling: Handling::LagMappe })
                } else {
                    (
                        Trinn::Forsok { n: 1 },
                        Steg { melding, logg: None, handling: Handling::Forsok },
                    )
                }
            }
        },
        (Trinn::Mappe, Hendelse::Mappe { ok }) => {
            if ok {
                (Trinn::Forsok { n: 1 }, stille_steg(Handling::Forsok))
            } else {
                (Trinn::Over, siste_steg(Slutt::Feilet))
            }
        },
        (Trinn::Forsok { n }, Hendelse::Forsokt { ok, avbrutt }) => {
            if ok {
                (Trinn::Over, siste_steg(Slutt::Gikk))
            } else if avbrutt {
                (Trinn::Over, siste_steg(Slutt::Feilet))
            } else if o.pause {
                (Trinn::Pause { n }, stille_steg(Handling::Pause))
            } else {
                nytt_forsok(o, n)
            }
        },
        (Trinn::Pause { n }, Hendelse::Pause) => nytt_forsok(o, n),
        _ => (Trinn::Over, siste_steg(Slutt::Feilet)),
    }
}

/// What a course of events leads to, from the wait for its turn on.
pub open spec fn kjort(o: Oppgave, hs: Seq<Hendelse>) -> Trinn
    decreases hs.len(),
{
    if hs.len() == 0 {
        Trinn::Tur
    } else {
        neste(o, kjort(o, hs.drop_last()), hs.last()).0
    }
}

/// Whether each event can come of the step before it.
pub open spec fn mulig_lop(o: Oppgave, hs: Seq<Hendelse>) -> bool
    decreases hs.len(),
{
    hs.len() > 0 ==> mulig_lop(o, hs.drop_last()) && mulig(kjort(o, hs.drop_last()), hs.last())
}

/// How many tries a course of events holds.
pub open spec fn forsok_i(hs: Seq<Hendelse>) -> nat
    decreases hs.len(),
{
    if hs.len() == 0 {
        0
    } else {
        forsok_i(hs.drop_last()) + if hs.last() is Forsokt {
            1nat
        } else {
            0nat
        }
    }
}

/// A file is tried at most as often as it may be.
pub proof fn hoyst_maks_forsok(o: Oppgave, hs: Seq<Hendelse>)
    requires
        mulig_lop(o, hs),
        o.maks >= 1,
    ensures
        forsok_i(hs) <= o.maks,
        kjort(o, hs) matches Trinn::Forsok { n } ==> 1 <= n <= o.maks && forsok_i(hs) == n - 1,
        kjort(o, hs) matches Trinn::Pause { n } ==> n <= o.maks && forsok_i(hs) == n,
        kjort(o, hs) == Trinn::Tur || kjort(o, hs) == Trinn::Mappe ==> forsok_i(hs) == 0,
    decreases hs.len(),
{
    if hs.len() > 0 {
        hoyst_maks_forsok(o, hs.drop_last());
    }
}

/// How many pauses a course of events holds.
pub open spec fn pauser_i(hs: Seq<Hendelse>) -> nat
    decreases hs.len(),
{
    if hs.len() == 0 {
        0
    } else {
        pauser_i(hs.drop_last()) + if hs.last() == Hendelse::Pause {
            1nat
        } else {
            0nat
        }
    }
}

/// Whether an event says that a try failed and that the user has not asked to stop.
pub open spec fn mislyktes(h: Hendelse) -> bool {
    h == (Hendelse::Forsokt { ok: false, avbrutt: false })
}

/// A file is given up for nothing but the last of its tries, its folder or the user: where
/// the folder was made, no try went well and the user did not ask to stop, it is over only
/// when it has been tried as often as it may be.
pub proof fn gir_ikke_opp_for_tidlig(o: Oppgave, hs: Seq<Hendelse>)
    requires
        mulig_lop(o, hs),
        o.maks >= 1,
        kjort(o, hs) == Trinn::Over,
        forall|i: int|
            0 <= i < hs.len() ==> #[trigger] hs[i] == (Hendelse::Tur { avbrutt: false }) || hs[i]
                == (Hendelse::Mappe { ok: true }) || hs[i] == Hendelse::Pause || mislyktes(hs[i]),
    ensures
        forsok_i(hs) == o.maks,
{
    assert(hs.len() > 0);
    assert(hs[hs.len() - 1] == hs.last());
    hoyst_maks_forsok(o, hs.drop_last());
    hoyst_maks_forsok(o, hs);
}

/// Between two tries there is a pause where there is to be one, and none where there is not.
pub proof fn pause_mellom_forsok(o: Oppgave, hs: Seq<Hendelse>)
    requires
        mulig_lop(o, hs),
        o.maks >= 1,
    ensures
        !o.pause ==> pauser_i(hs) == 0,
        !o.pause ==> !(kjort(o, hs) is Pause),
        o.pause ==> (kjort(o, hs) matches Trinn::Forsok { n } ==> pauser_i(hs) == n - 1),
        o.pause ==> (kjort(o, hs) matches Trinn::Pause { n } ==> pauser_i(hs) == n - 1),
        kjort(o, hs) == Trinn::Tur || kjort(o, hs) == Trinn::Mappe ==> pauser_i(hs) == 0,
    decreases hs.len(),
{
    if hs.len() > 0 {
        pause_mellom_forsok(o, hs.drop_last());
        hoyst_maks_forsok(o, hs.drop_last());
    }
}

/// Where a file's folder is to be made, that is done before the first try, and without the
/// folder the file is not tried.
pub proof fn mappa_lages_forst(o: Oppgave, hs: Seq<Hendelse>)
    requires
        mulig_lop(o, hs),
        o.mappe,
        o.maks >= 1,
    ensures
        hs.len() > 0 ==> hs[0] is Tur,
        kjort(o, hs) == Trinn::Tur <==> hs.len() == 0,
        kjort(o, hs) == Trinn::Mappe ==> hs.len() == 1,
        kjort(o, hs) is Forsok || kjort(o, hs) is Pause || forsok_i(hs) > 0 ==> hs.len() > 1
            && hs[1] == (Hendelse::Mappe { ok: true }),
    decreases hs.len(),
{
    if hs.len() > 0 {
        mappa_lages_forst(o, hs.drop_last());
        hoyst_maks_forsok(o, hs.drop_last());
    }
}

/// Once a try has gone well, or the user has asked to stop, the file is not tried again.
pub proof fn stopper_naar_den_skal(o: Oppgave, hs: Seq<Hendelse>, i: int)
    requires
        mulig_lop(o, hs),
        0 <= i < hs.len(),
        hs[i] matches Hendelse::Forsokt { ok, avbrutt } && (ok || avbrutt),
    ensures
        i == hs.len() - 1,
        kjort(o, hs) == Trinn::Over,
    decreases hs.len(),
{
    if i < hs.len() - 1 {
        stopper_naar_den_skal(o, hs.drop_last(), i);
        assert(kjort(o, hs.drop_last()) == Trinn::Over);
    }
}

/// What a course of events puts in the log.
pub open spec fn poster(o: Oppgave, hs: Seq<Hendelse>) -> Seq<Post>
    decreases hs.len(),
{
    if hs.len() == 0 {
        seq![Post::Startet]
    } else {
        let foran = poster(o, hs.drop_last());
        match neste(o, kjort(o, hs.drop_last()), hs.last()).1.logg {
            Some(p) => foran.push(p),
            None => foran,
        }
    }
}

/// The log has one line for the start of each file and one for its end, whichever way it
/// ends: the first when its turn has come, the other when it is over.
pub proof fn en_start_og_en_slutt(o: Oppgave, hs: Seq<Hendelse>)
    requires
        mulig_lop(o, hs),
    ensures
        poster(o, hs)[0] == Post::Startet,
        kjort(o, hs) == Trinn::Over ==> poster(o, hs).len() == 2 && poster(o, hs)[1] is Endte,
        kjort(o, hs) != Trinn::Over ==> poster(o, hs).len() == 1,
    decreases hs.len(),
{
    if hs.len() > 0 {
        en_start_og_en_slutt(o, hs.drop_last());
    }
}

/// What the log says of a file with this name, size and checksum, and of what went wrong.
pub open spec fn postlinje(
    p: Post,
    id: Seq<char>,
    bytes: nat,
    xxh64: Seq<char>,
    sti: Seq<char>,
    feil: Seq<char>,
) -> Seq<char> {
    match p {
        Post::Startet => startlinje(id, sti),
        Post::Endte(Slutt::Gikk) => ferdiglinje(id, bytes, xxh64, sti),
        Post::Endte(Slutt::AldriBegynt) => feillinje(id, avbrutt_tekst()),
        Post::Endte(Slutt::Feilet) => feillinje(id, feil),
    }
}

/// Writes what the log says of a file.
pub fn loggpost(p: Post, id: &str, bytes: u64, xxh64: &str, sti: &str, feil: &str) -> (r: String)
    ensures
        r@ == postlinje(p, id@, bytes as nat, xxh64@, sti@, feil@),
{
    match p {
        Post::Startet => logg_startet(id, sti),
        Post::Endte(Slutt::Gikk) => logg_ferdig(id, bytes, xxh64, sti),
        Post::Endte(Slutt::AldriBegynt) => logg_feilet(id, "Avbrutt"),
        Post::Endte(Slutt::Feilet) => logg_feilet(id, feil),
    }
}

/// A file that is over takes no more steps.
pub proof fn over_er_over(t: Trinn, h: Hendelse)
    requires
        t == Trinn::Over,
    ensures
        !mulig(t, h),
{
}

/// How the transfer of one file ended.
#[derive(Debug)]
pub enum Utfall {
    Gikk,
    /// It failed, with these words.
    Feilet { id: String, feil: String },
    /// The work on it broke off, with these words.
    Brast { feil: String },
}

/// A failure in a job.
#[derive(Debug)]
pub struct Jobbfeil {
    /// The file; unknown where the work on it broke off.
    pub id: Option<String>,
    pub feil: String,
}

/// What a job came to.
#[derive(Debug)]
pub struct Resultat {
    pub ok: usize,
    pub feil: Vec<Jobbfeil>,
}

/// How many files went well.
pub open spec fn antall_ok(utfall: Seq<Utfall>) -> nat
    decreases utfall.len(),
{
    if utfall.len() == 0 {
        0
    } else {
        antall_ok(utfall.drop_last()) + if utfall.last() is Gikk {
            1nat
        } else {
            0
        }
    }
}

/// The failures, each with its file where that is known, in order.
pub open spec fn feilene(utfall: Seq<Utfall>) -> Seq<(Option<Seq<char>>, Seq<char>)>
    decreases utfall.len(),
{
    if utfall.len() == 0 {
        Seq::empty()
    } else {
        let foran = feilene(utfall.drop_last());
        match utfall.last() {
            Utfall::Gikk => foran,
            Utfall::Feilet { id, feil } => foran.push((Some(id@), feil@)),
            Utfall::Brast { feil } => foran.push((None, feil@)),
        }
    }
}

/// What a list of failures says.
pub open spec fn feilord(v: Seq<Jobbfeil>) -> Seq<(Option<Seq<char>>, Seq<char>)> {
    v.map_values(|f: Jobbfeil| (crate::tekst::valgfri(f.id), f.feil@))
}

/// Every file of a job is counted once: it went well, or it is among the failures.
pub proof fn alle_telles(utfall: Seq<Utfall>)
    ensures
        antall_ok(utfall) + feilene(utfall).len() == utfall.len(),
    decreases utfall.len(),
{
    if utfall.len() > 0 {
        alle_telles(utfall.drop_last());
    }
}

/// Sums up a job.
pub fn samle(utfall: Vec<Utfall>) -> (r: Resultat)
    ensures
        r.ok == antall_ok(utfall@),
        feilord(r.feil@) == feilene(utfall@),
        r.ok + r.feil@.len() == utfall@.len(),
{
    let mut ok: usize = 0;
    let mut feil: Vec<Jobbfeil> = Vec::new();
    let n: usize = utfall.len();
    let mut i: usize = 0;
    while i < n
        invariant
            i <= n,
            n == utfall@.len(),
            ok == antall_ok(utfall@.take(i as int)),
            ok <= i,
            feilord(feil@) == feilene(utfall@.take(i as int)),
        decreases n - i,
    {
        assert(utfall@.take(i + 1).drop_last() =~= utfall@.take(i as int));
        let ghost foer = feil@;
        match &utfall[i] {
            Utfall::Gikk => {
                ok += 1;
            },
            Utfall::Feilet { id, feil: e } => {
                feil.push(Jobbfeil { id: Some(id.clone()), feil: e.clone() });
                assert(feilord(feil@) =~= feilord(foer).push((Some(id@), e@)));
            },
            Utfall::Brast { feil: e } => {
                feil.push(Jobbfeil { id: None, feil: e.clone() });
                assert(feilord(feil@) =~= feilord(foer).push((None, e@)));
            },
        }
        i += 1;
    }
    assert(utfall@.take(n as int) =~= utfall@);
    proof {
        alle_telles(utfall@);
        assert(feilord(feil@).len() == feil@.len());
    }
    Resultat { ok, feil }
}

/// The words of each failure.
pub open spec fn feiltekster(v: Seq<Jobbfeil>) -> Seq<Seq<char>> {
    v.map_values(|f: Jobbfeil| f.feil@)
}

/// The lines at the end of the log of a job that came to this.
pub fn jobbslutt(r: &Resultat) -> (ut: Vec<String>)
    requires
        r.ok + r.feil@.len() <= u64::MAX,
    ensures
        tekster(ut@) == seq![
            "🏁 ===== nedlasting ferdig ====="@,
            sammendrag(r.ok as nat, feiltekster(r.feil@)),
        ],
{
    let mut feil: Vec<String> = Vec::new();
    let mut i: usize = 0;
    while i < r.feil.len()
        invariant
            i <= r.feil@.len(),
            tekster(feil@) == feiltekster(r.feil@).take(i as int),
        decreases r.feil@.len() - i,
    {
        let ghost foer = feil@;
        let ord = r.feil[i].feil.clone();
        feil.push(ord);
        assert(tekster(feil@) =~= tekster(foer).push(ord@));
        i += 1;
        assert(tekster(feil@) =~= feiltekster(r.feil@).take(i as int));
    }
    assert(tekster(feil@) =~= feiltekster(r.feil@));
    loggslutt(r.ok, &feil)
}

/// The summary of a job counts all of its files: the total is their number, and those that
/// were downloaded, those that failed and those that were stopped make it up.
pub proof fn sammendraget_gjelder_alle(utfall: Seq<Utfall>)
    ensures
        ({
            let ok = antall_ok(utfall);
            let feil = feilene(utfall).map_values(|f: (Option<Seq<char>>, Seq<char>)| f.1);
            let avbrutt = antall_avbrutt(feil);
            &&& avbrutt <= feil.len()
            &&& ok + (feil.len() - avbrutt) + avbrutt == utfall.len()
            &&& sammendrag(ok, feil) == "\n\tTotalt: "@ + desimaler(utfall.len())
                + "\n\tLastet ned: "@ + desimaler(ok) + "\n\tFeilet: "@ + desimaler(
                (feil.len() - avbrutt) as nat,
            ) + "\n\tAvbrutt: "@ + desimaler(avbrutt)
        }),
{
    alle_telles(utfall);
    let feil = feilene(utfall).map_values(|f: (Option<Seq<char>>, Seq<char>)| f.1);
    avbrutt_er_blant_feilene(feil);
}

/// What a job came to is what became of its files, one after another: a file that went well
/// counts, and one that did not is listed with its words, and with its name where that is
/// known.
pub proof fn fil_for_fil(a: Seq<Utfall>, u: Utfall, b: Seq<Utfall>)
    ensures
        antall_ok(a + b) == antall_ok(a) + antall_ok(b),
        feilene(a + b) == feilene(a) + feilene(b),
        u is Gikk ==> antall_ok(a.push(u)) == antall_ok(a) + 1 && feilene(a.push(u)) == feilene(a),
        u matches Utfall::Feilet { id, feil } ==> antall_ok(a.push(u)) == antall_ok(a) && feilene(
            a.push(u),
        ) == feilene(a).push((Some(id@), feil@)),
        u matches Utfall::Brast { feil } ==> antall_ok(a.push(u)) == antall_ok(a) && feilene(
            a.push(u),
        ) == feilene(a).push((None, feil@)),
    decreases b.len(),
{
    assert(a.push(u).drop_last() =~= a);
    if b.len() == 0 {
        assert(a + b =~= a);
        assert(feilene(a) + feilene(b) =~= feilene(a));
    } else {
        fil_for_fil(a, u, b.drop_last());
        assert((a + b).drop_last() =~= a + b.drop_last());
        assert(feilene(a + b) =~= feilene(a) + feilene(b));
    }
}

/// As many files went well as are among those that did.
pub proof fn de_som_gikk_telles(utfall: Seq<Utfall>)
    ensures
        antall_ok(utfall) == utfall.filter(|u: Utfall| u is Gikk).len(),
    decreases utfall.len(),
{
    reveal(Seq::filter);
    if utfall.len() > 0 {
        de_som_gikk_telles(utfall.drop_last());
    }
}

/// When its turn comes, a file that the user has stopped is over, and nothing is reported;
/// any other is reported as begun, with nothing of its bytes moved.
pub proof fn turen_kommer(o: Oppgave, avbrutt: bool)
    ensures
        ({
            let s = neste(o, Trinn::Tur, Hendelse::Tur { avbrutt }).1;
            &&& avbrutt <==> s.handling == Handling::Ferdig(Slutt::AldriBegynt)
            &&& avbrutt ==> s.melding is None
            &&& !avbrutt ==> s.handling == (if o.mappe {
                Handling::LagMappe
            } else {
                Handling::Forsok
            })
            &&& !avbrutt ==> (s.melding matches Some(m) && m.hentet == 0 && m.total == o.bytes
                && m.status == Status::Laster)
        }),
{
}

/// A try that went well ends the file well, whatever the user has asked for meanwhile; one
/// that failed ends it where the user has asked to stop, and else leads to a pause or to the
/// next try.
pub proof fn forsoket_avgjor(o: Oppgave, n: u32, ok: bool, avbrutt: bool)
    ensures
        ({
            let (t, s) = neste(o, Trinn::Forsok { n }, Hendelse::Forsokt { ok, avbrutt });
            let (u, v) = neste(o, Trinn::Pause { n }, Hendelse::Pause);
            &&& ok <==> s.handling == Handling::Ferdig(Slutt::Gikk)
            &&& !ok && avbrutt ==> s.handling == Handling::Ferdig(Slutt::Feilet)
            &&& !ok && !avbrutt && o.pause ==> s.handling == Handling::Pause && t == (Trinn::Pause {
                n,
            })
            &&& !ok && !avbrutt && !o.pause && n < o.maks ==> s.handling == Handling::Forsok && t
                == (Trinn::Forsok { n: (n + 1) as u32 })
            &&& !ok && !avbrutt && !o.pause && n >= o.maks ==> s.handling == Handling::Ferdig(
                Slutt::Feilet,
            )
            &&& n < o.maks <==> v.handling == Handling::Forsok
            &&& n >= o.maks <==> v.handling == Handling::Ferdig(Slutt::Feilet)
        }),
{
}

/// The line at the end of a file says how it ended: that it is complete, that it was stopped,
/// or in its words why it failed.
pub proof fn sluttlinja_sier_hvordan(
    id: Seq<char>,
    bytes: nat,
    xxh64: Seq<char>,
    sti: Seq<char>,
    feil: Seq<char>,
)
    ensures
        postlinje(Post::Endte(Slutt::Gikk), id, bytes, xxh64, sti, feil)[0] == '✅',
        postlinje(Post::Endte(Slutt::Feilet), id, bytes, xxh64, sti, feil)[0] == '❌',
        postlinje(Post::Endte(Slutt::AldriBegynt), id, bytes, xxh64, sti, feil) == postlinje(
            Post::Endte(Slutt::Feilet),
            id,
            bytes,
            xxh64,
            sti,
            "Avbrutt"@,
        ),
        postlinje(Post::Startet, id, bytes, xxh64, sti, feil)[0] == '🚀',
        har_suffiks(
            postlinje(Post::Endte(Slutt::Feilet), id, bytes, xxh64, sti, feil),
            " | ID: "@ + id + " | "@ + feil,
        ),
        har_suffiks(
            postlinje(Post::Endte(Slutt::Gikk), id, bytes, xxh64, sti, feil),
            " | ID: "@ + id + " | "@ + sti,
        ),
{
    linjene_nevner_fila(id, bytes, xxh64, sti, feil);
    reveal_strlit("🚀 Startet                | ID: ");
    reveal_strlit("❌ ");
    reveal_strlit("✅ Ferdig & verifisert   | xxHash: ");
    reveal_strlit("✅ Ferdig & størrelse ok  | ");
    assert("🚀 Startet                | ID: "@[0] == '🚀');
    assert("❌ "@[0] == '❌');
    assert("✅ Ferdig & verifisert   | xxHash: "@[0] == '✅');
    assert("✅ Ferdig & størrelse ok  | "@[0] == '✅');
}

/// Whatever comes of what the application is told to do, the file can take it.
pub proof fn hvert_svar_kan_tas(o: Oppgave, hs: Seq<Hendelse>, h: Hendelse)
    requires
        mulig_lop(o, hs),
        hs.len() > 0,
        match neste(o, kjort(o, hs.drop_last()), hs.last()).1.handling {
            Handling::SeEtterAvbrudd => h is Tur,
            Handling::LagMappe => h is Mappe,
            Handling::Forsok => h is Forsokt,
            Handling::Pause => h is Pause,
            Handling::Ferdig(_) => false,
        },
    ensures
        mulig(kjort(o, hs), h),
        mulig(Trinn::Tur, Hendelse::Tur { avbrutt: true }),
        mulig(Trinn::Tur, Hendelse::Tur { avbrutt: false }),
{
}

/// Without its folder a file has failed, and with it the first try comes.
pub proof fn mappa_avgjor(o: Oppgave, ok: bool)
    ensures
        ok <==> neste(o, Trinn::Mappe, Hendelse::Mappe { ok }).1.handling == Handling::Forsok,
        !ok <==> neste(o, Trinn::Mappe, Hendelse::Mappe { ok }).1.handling == Handling::Ferdig(
            Slutt::Feilet,
        ),
        ok ==> neste(o, Trinn::Mappe, Hendelse::Mappe { ok }).0 == (Trinn::Forsok { n: 1 }),
{
}

} // verus!
