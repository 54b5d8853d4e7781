//! Downloading one file: where it is put, what is asked of the portal and the storage,
//! and when the finished file gets its name.
//!
//! The bytes go to a file of their own, `name.part`, that is renamed when it is
//! complete. A download that was cut off goes on from the end of that file.
use crate::framdrift::{Melding, Status};
use crate::navn::{part_navn, trygg_sti, trygge_deler, trygt, trygt_navn};
use crate::tekst::{desimal, desimaler, lik, tekster, trim_slutt, uten_slutt};
use vstd::prelude::*;
use vstd::string::*;

verus! {

/// A file to download.
#[derive(Clone, Debug)]
pub struct Fil {
    pub id: String,
    pub filnavn: String,
    /// Its size, or zero where the server does not say.
    pub bytes: u64,
    /// The folder it is put in, below the download folder.
    pub sti: String,
    /// Its checksum, or empty where the server has none.
    pub xxh64: String,
    /// The address to fetch it from without a key; empty for a file of one's own.
    pub url: String,
}

/// What to do with a file that is already there.
#[derive(Clone, Copy, Debug, PartialEq, Eq, Structural)]
pub enum Konflikt {
    /// Keep it if its size is right, else write over it.
    Hopp,
    /// Keep it, and put the new one beside it.
    Begge,
    /// Always write over it.
    Overskriv,
}

/// The choice that a word stands for.
pub open spec fn konflikt_av(s: Seq<char>) -> Konflikt {
    if s == "begge"@ {
        Konflikt::Begge
    } else if s == "overskriv"@ {
        Konflikt::Overskriv
    } else {
        Konflikt::Hopp
    }
}

/// Reads the choice; every other word stands for the usual one.
pub fn les_konflikt(s: &str) -> (r: Konflikt)
    ensures
        r == konflikt_av(s@),
{
    if lik(s, "begge") {
        Konflikt::Begge
    } else if lik(s, "overskriv") {
        Konflikt::Overskriv
    } else {
        Konflikt::Hopp
    }
}

/// Where a file is put: folders below the download folder, its name there, and the name
/// of the unfinished file.
#[derive(Debug)]
pub struct Plass {
    pub mappe: Vec<String>,
    pub navn: String,
    pub part: String,
}

/// Where a file is put.
pub fn plass(fil: &Fil) -> (r: Plass)
    ensures
        tekster(r.mappe@) == trygge_deler(fil.sti@),
        r.navn@ == trygt(fil.filnavn@),
        r.part@ == trygt(fil.filnavn@) + ".part"@,
{
    Plass {
        mappe: trygg_sti(fil.sti.as_str()),
        navn: trygt_navn(fil.filnavn.as_str()),
        part: part_navn(fil.filnavn.as_str()),
    }
}

/// The address that the portal is asked at for a file.
pub fn original_url(portal: &str, fil: &Fil) -> (r: String)
    ensures
        r@ == if fil.url@.len() == 0 {
            uten_slutt(portal@, '/') + "/api/rawskap/original/"@ + fil.id@ + "?last=1"@
        } else {
            fil.url@
        },
{
    if fil.url.as_str().is_empty() {
        let mut ut = trim_slutt(portal, '/');
        ut.append("/api/rawskap/original/");
        ut.append(fil.id.as_str());
        ut.append("?last=1");
        ut
    } else {
        fil.url.clone()
    }
}

/// The value of the range header of a download that goes on from byte `fra`.
pub fn range_verdi(fra: u64) -> (r: String)
    ensures
        r@ == "bytes="@ + desimaler(fra as nat) + "-"@,
{
    let mut ut = "bytes=".to_owned();
    ut.append(desimal(fra).as_str());
    ut.append("-");
    ut
}

/// What of a file decides the course of its download.
#[derive(Clone, Copy, Debug, PartialEq, Eq, Structural)]
pub struct Oppgave {
    pub bytes: u64,
    /// Whether the server has a checksum.
    pub har_sum: bool,
    /// Whether the file has an address of its own.
    pub egen_url: bool,
    pub konflikt: Konflikt,
}

/// The task of downloading a file.
pub fn oppgave(fil: &Fil, konflikt: &str) -> (r: Oppgave)
    ensures
        r.bytes == fil.bytes,
        r.har_sum == (fil.xxh64@.len() > 0),
        r.egen_url == (fil.url@.len() > 0),
        r.konflikt == konflikt_av(konflikt@),
{
    Oppgave {
        bytes: fil.bytes,
        har_sum: !fil.xxh64.as_str().is_empty(),
        egen_url: !fil.url.as_str().is_empty(),
        konflikt: les_konflikt(konflikt),
    }
}

/// Why a download failed.
#[derive(Clone, Copy, Debug, PartialEq, Eq, Structural)]
pub enum Feil {
    /// The disk or the network failed; the application knows the words.
    Ytre,
    UtenLocation,
    Blokkert,
    UgyldigNokkel,
    Portalen(u16),
    Lageret(u16),
    Avbrutt,
    Ufullstendig { hentet: u64, bytes: u64 },
    /// The storage has nothing more, and what is there is not of the right size.
    Storrelse { hentet: u64, bytes: u64 },
    /// The checksum is not the one that the server has.
    Verifisering,
}

/// The words for a failure.
pub open spec fn feiltekst(f: Feil) -> Seq<char> {
    match f {
        Feil::Ytre => Seq::empty(),
        Feil::UtenLocation => "302 uten Location"@,
        Feil::Blokkert => "Blokkert (samtykke trukket/utløpt)"@,
        Feil::UgyldigNokkel => "Nøkkelen er ugyldig — lag en ny"@,
        Feil::Portalen(s) => "Portalen svarte "@ + desimaler(s as nat),
        Feil::Lageret(s) => "Lageret svarte "@ + desimaler(s as nat),
        Feil::Avbrutt => "Avbrutt"@,
        Feil::Ufullstendig { hentet, bytes } => "Ufullstendig: "@ + desimaler(hentet as nat)
            + " av "@ + desimaler(bytes as nat)
            + " bytes — prøv igjen (fortsetter der den slapp)"@,
        Feil::Storrelse { hentet, bytes } => "Feil størrelse: "@ + desimaler(hentet as nat)
            + " av "@ + desimaler(bytes as nat) + " bytes — prøv igjen (lastes ned på nytt)"@,
        Feil::Verifisering => "Verifisering feilet (xxHash) — lastet ned på nytt"@,
    }
}

impl Feil {
    /// The words for a failure; none for one of the disk or the network.
    pub fn tekst(self) -> (r: String)
        ensures
            r@ == feiltekst(self),
    {
        match self {
            Feil::Ytre => String::new(),
            Feil::UtenLocation => "302 uten Location".to_owned(),
            Feil::Blokkert => "Blokkert (samtykke trukket/utløpt)".to_owned(),
            Feil::UgyldigNokkel => "Nøkkelen er ugyldig — lag en ny".to_owned(),
            Feil::Portalen(s) => {
                let mut ut = "Portalen svarte ".to_owned();
                ut.append(desimal(s as u64).as_str());
                ut
            },
            Feil::Lageret(s) => {
                let mut ut = "Lageret svarte ".to_owned();
                ut.append(desimal(s as u64).as_str());
                ut
            },
            Feil::Avbrutt => "Avbrutt".to_owned(),
            Feil::Ufullstendig { hentet, bytes } => {
                let mut ut = "Ufullstendig: ".to_owned();
                ut.append(desimal(hentet).as_str());
                ut.append(" av ");
                ut.append(desimal(bytes).as_str());
                ut.append(" bytes — prøv igjen (fortsetter der den slapp)");
                ut
            },
            Feil::Storrelse { hentet, bytes } => {
                let mut ut = "Feil størrelse: ".to_owned();
                ut.append(desimal(hentet).as_str());
                ut.append(" av ");
                ut.append(desimal(bytes).as_str());
                ut.append(" bytes — prøv igjen (lastes ned på nytt)");
                ut
            },
            Feil::Verifisering => {
                "Verifisering feilet (xxHash) — lastet ned på nytt".to_owned()
            },
        }
    }
}

/// What the download waits for.
#[derive(Clone, Copy, Debug, PartialEq, Eq, Structural)]
pub enum Trinn {
    /// The folders are being made.
    Mappe,
    /// Whether a file with the name is there.
    Finnes,
    /// Whether a file with the `n`th other name is there.
    Kandidat { n: u64 },
    /// The old file is being deleted.
    SlettGammel,
    /// The size of the file with the chosen name.
    Storrelse,
    /// The file is there; the leftover of an earlier download is being deleted.
    SlettRest,
    /// The size of the unfinished file.
    RestStorrelse,
    /// The portal's answer.
    Portal,
    /// The storage's answer.
    Lager,
    /// The unfinished file is being opened.
    Apne,
    /// The next piece.
    Bit,
    /// A piece of this many bytes is being written.
    Skriv { n: u64 },
    /// The last bytes are being written out.
    Tom,
    /// The checksum of the unfinished file.
    Sum,
    /// The unfinished file has the wrong size and is being deleted.
    SlettStorrelse,
    /// The unfinished file did not match and is being deleted.
    SlettFeil,
    /// The finished file is being renamed.
    Navngi,
    /// The download is over.
    Over,
}

/// The state of a download.
#[derive(Clone, Copy, Debug, PartialEq, Eq, Structural)]
pub struct Ned {
    pub trinn: Trinn,
    /// The number of the name it gets; zero for its own.
    pub valgt: u64,
    /// The size of the unfinished file when the download began.
    pub allerede: u64,
    /// Where in the file the storage began.
    pub start: u64,
    /// The size of the unfinished file.
    pub hentet: u64,
    /// The size that is reported.
    pub total: u64,
    /// Whether the storage has said that nothing is left to send.
    pub tomt: bool,
}

/// What came of an action.
#[derive(Clone, Copy, Debug, PartialEq, Eq, Structural)]
pub enum Hendelse {
    /// It was done.
    Gjort,
    /// The disk or the network failed.
    Ytre,
    /// Whether the file is there.
    Finnes(bool),
    /// The size of the file, where it is there.
    Storrelse(Option<u64>),
    /// The portal answered: the status, and where it names another address, whether that
    /// is the one that was asked.
    Portal { status: u16, adresse: Option<bool> },
    /// The storage answered: the status, and the length it gives, or zero.
    Lager { status: u16, lengde: u64 },
    /// A piece arrived, of this many bytes or in error, and whether the user had asked to
    /// stop by then.
    Bit { n: Option<u64>, avbrutt: bool },
    /// The piece was written, this long after the last report.
    Skrevet { siden_ms: u64 },
    /// There are no more pieces.
    Slutt,
    /// Whether the checksum is the one that the server has.
    Sum { stemmer: bool },
}

/// What the application is to do next.
#[derive(Clone, Copy, Debug, PartialEq, Eq, Structural)]
pub enum Handling {
    LagMappe,
    SeEtterFil,
    SeEtterKandidat { n: u64 },
    SlettGammel,
    SeStorrelse,
    SlettRest,
    SeRest,
    /// Ask the portal, with the key or, for a file with an address of its own, without.
    SporPortal { med_nokkel: bool },
    /// Ask the storage, with the key only where it is the portal itself, from a byte on where
    /// there is something to go on from.
    SporLager { med_nokkel: bool, fra: Option<u64> },
    /// Open the unfinished file, behind what it holds or from its beginning.
    Apne { bak: bool },
    NesteBit,
    SkrivBit,
    Tom,
    BeregnSum,
    SlettFeil,
    /// Rename the unfinished file to the chosen name.
    Navngi,
    /// The file is there.
    Ferdig,
    /// The download failed.
    Feilet(Feil),
}

/// A step: what to do, and what to report before it is done.
#[derive(Clone, Copy, Debug, PartialEq, Eq, Structural)]
pub struct Steg {
    pub melding: Option<Melding>,
    pub handling: Handling,
}

/// Milliseconds between two reports.
pub const MELD_MS: u64 = 150;

pub open spec fn stille(handling: Handling) -> Steg {
    Steg { melding: None, handling }
}

pub open spec fn meldt(hentet: u64, total: u64, status: Status, handling: Handling) -> Steg {
    Steg { melding: Some(Melding { hentet, total, status }), handling }
}

/// Whether an event can come of what the download waits for.
pub open spec fn mulig(t: Ned, h: Hendelse) -> bool {
    match (t.trinn, h) {
        (Trinn::Mappe, Hendelse::Gjort) => true,
        (Trinn::Mappe, Hendelse::Ytre) => true,
        (Trinn::Finnes, Hendelse::Finnes(_)) => true,
        (Trinn::Kandidat { n }, Hendelse::Finnes(_)) => n < u64::MAX,
        (Trinn::SlettGammel, Hendelse::Gjort) => true,
        (Trinn::Storrelse, Hendelse::Storrelse(_)) => true,
        (Trinn::SlettRest, Hendelse::Gjort) => true,
        (Trinn::RestStorrelse, Hendelse::Storrelse(_)) => true,
        (Trinn::Portal, Hendelse::Portal { .. }) => true,
        (Trinn::Portal, Hendelse::Ytre) => true,
        (Trinn::Lager, Hendelse::Lager { status, lengde }) => t.allerede + lengde <= u64::MAX,
        (Trinn::Lager, Hendelse::Ytre) => true,
        (Trinn::Apne, Hendelse::Gjort) => true,
        (Trinn::Apne, Hendelse::Ytre) => true,
        (Trinn::Bit, Hendelse::Bit { n, avbrutt }) => n is Some ==> t.hentet + n->0 <= u64::MAX,
        (Trinn::Bit, Hendelse::Slutt) => true,
        (Trinn::Skriv { n }, Hendelse::Skrevet { .. }) => t.hentet + n <= u64::MAX,
        (Trinn::Skriv { .. }, Hendelse::Ytre) => true,
        (Trinn::Tom, Hendelse::Gjort) => true,
        (Trinn::Tom, Hendelse::Ytre) => true,
        (Trinn::Sum, Hendelse::Sum { .. }) => true,
        (Trinn::SlettStorrelse, Hendelse::Gjort) => true,
        (Trinn::SlettFeil, Hendelse::Gjort) => true,
        (Trinn::Navngi, Hendelse::Gjort) => true,
        (Trinn::Navngi, Hendelse::Ytre) => true,
        _ => false,
    }
}

/// The bytes that are reported as fetched, and out of how many, once nothing more is
/// fetched. Where the storage had nothing left to send, both are the size that the server
/// gives, also where it gives none.
pub open spec fn til_melding(o: Oppgave, t: Ned) -> (u64, u64) {
    if t.tomt {
        (o.bytes, o.bytes)
    } else {
        (t.hentet, t.total)
    }
}

/// What the portal's answer leads to: a failure, or a question to the storage, and whether
/// that is at the address that was just asked.
pub open spec fn etter_portal(status: u16, adresse: Option<bool>) -> Result<bool, Feil> {
    if status == 301 || status == 302 || status == 303 || status == 307 || status == 308 {
        match adresse {
            Some(samme) => Ok(samme),
            None => Err(Feil::UtenLocation),
        }
    } else if status == 403 {
        Err(Feil::Blokkert)
    } else if status == 401 {
        Err(Feil::UgyldigNokkel)
    } else if 200 <= status < 300 {
        Ok(true)
    } else {
        Err(Feil::Portalen(status))
    }
}

/// The step after the pieces have all been written out.
pub open spec fn etter_tom(o: Oppgave, t: Ned) -> (Ned, Steg) {
    if o.bytes > 0 && t.hentet != o.bytes {
        (
            (Ned { trinn: Trinn::Over, ..t }),
            stille(Handling::Feilet(Feil::Ufullstendig { hentet: t.hentet, bytes: o.bytes })),
        )
    } else if o.har_sum {
        (
            (Ned { trinn: Trinn::Sum, ..t }),
            meldt(
                til_melding(o, t).0,
                til_melding(o, t).1,
                Status::Hash,
                Handling::BeregnSum,
            ),
        )
    } else {
        ((Ned { trinn: Trinn::Navngi, ..t }), stille(Handling::Navngi))
    }
}

/// The step after the storage has said that nothing is left to send: what is there is
/// verified like any other download. Where its size is wrong it is of no use and is
/// deleted.
pub open spec fn alt_er_hentet(o: Oppgave, t: Ned) -> (Ned, Steg) {
    let ny = Ned {
        start: t.allerede,
        hentet: t.allerede,
        total: o.bytes,
        tomt: true,
        ..t
    };
    if o.bytes > 0 && t.allerede != o.bytes {
        ((Ned { trinn: Trinn::SlettStorrelse, ..ny }), stille(Handling::SlettFeil))
    } else {
        etter_tom(o, ny)
    }
}

/// The step after the storage has answered.
pub open spec fn etter_lager(o: Oppgave, t: Ned, status: u16, lengde: u64) -> (Ned, Steg) {
    if status == 206 || status == 200 {
        let start: u64 = if status == 206 {
            t.allerede
        } else {
            0
        };
        let total: u64 = if o.bytes > 0 {
            o.bytes
        } else {
            (start + lengde) as u64
        };
        (
            (Ned { trinn: Trinn::Apne, start, hentet: start, total, ..t }),
            stille(Handling::Apne { bak: status == 206 }),
        )
    } else if status == 416 {
        alt_er_hentet(o, t)
    } else {
        ((Ned { trinn: Trinn::Over, ..t }), stille(Handling::Feilet(Feil::Lageret(status))))
    }
}

/// The next step of a download.
pub open spec fn neste(o: Oppgave, t: Ned, h: Hendelse) -> (Ned, Steg) {
    match (t.trinn, h) {
        (Trinn::Mappe, Hendelse::Gjort) => (
            (Ned { trinn: Trinn::Finnes, ..t }),
            stille(Handling::SeEtterFil),
        ),
        (Trinn::Finnes, Hendelse::Finnes(der)) => if der && o.konflikt == Konflikt::Begge {
            (
                (Ned { trinn: Trinn::Kandidat { n: 2 }, ..t }),
                stille(Handling::SeEtterKandidat { n: 2 }),
            )
        } else if der && o.konflikt == Konflikt::Overskriv {
            ((Ned { trinn: Trinn::SlettGammel, ..t }), stille(Handling::SlettGammel))
        } else {
            ((Ned { trinn: Trinn::Storrelse, ..t }), stille(Handling::SeStorrelse))
        },
        (Trinn::Kandidat { n }, Hendelse::Finnes(der)) => if der {
            (
                (Ned { trinn: Trinn::Kandidat { n: (n + 1) as u64 }, ..t }),
                stille(Handling::SeEtterKandidat { n: (n + 1) as u64 }),
            )
        } else {
            ((Ned { trinn: Trinn::Storrelse, valgt: n, ..t }), stille(Handling::SeStorrelse))
        },
        (Trinn::SlettGammel, Hendelse::Gjort) => (
            (Ned { trinn: Trinn::Storrelse, ..t }),
            stille(Handling::SeStorrelse),
        ),
        (Trinn::Storrelse, Hendelse::Storrelse(s)) => if o.konflikt != Konflikt::Overskriv
            && o.bytes > 0 && s == Some(o.bytes) {
            ((Ned { trinn: Trinn::SlettRest, ..t }), stille(Handling::SlettRest))
        } else {
            ((Ned { trinn: Trinn::RestStorrelse, ..t }), stille(Handling::SeRest))
        },
        (Trinn::SlettRest, Hendelse::Gjort) => (
            (Ned { trinn: Trinn::Over, ..t }),
            meldt(o.bytes, o.bytes, Status::Hoppet, Handling::Ferdig),
        ),
        (Trinn::RestStorrelse, Hendelse::Storrelse(s)) => {
            let allerede: u64 = match s {
                Some(n) => n,
                None => 0,
            };
            (
                (Ned { trinn: Trinn::Portal, allerede, ..t }),
                stille(Handling::SporPortal { med_nokkel: !o.egen_url }),
            )
        },
        (Trinn::Portal, Hendelse::Portal { status, adresse }) => match etter_portal(
            status,
            adresse,
        ) {
            Ok(samme) => (
                (Ned { trinn: Trinn::Lager, ..t }),
                stille(
                    Handling::SporLager {
                        med_nokkel: samme && !o.egen_url,
                        fra: if t.allerede > 0 {
                            Some(t.allerede)
                        } else {
                            None
                        },
                    },
                ),
            ),
            Err(f) => ((Ned { trinn: Trinn::Over, ..t }), stille(Handling::Feilet(f))),
        },
        (Trinn::Lager, Hendelse::Lager { status, lengde }) => etter_lager(o, t, status, lengde),
        (Trinn::Apne, Hendelse::Gjort) => (
            (Ned { trinn: Trinn::Bit, ..t }),
            stille(Handling::NesteBit),
        ),
        (Trinn::Bit, Hendelse::Bit { n, avbrutt }) => if avbrutt {
            ((Ned { trinn: Trinn::Over, ..t }), stille(Handling::Feilet(Feil::Avbrutt)))
        } else {
            match n {
                Some(n) => (
                    (Ned { trinn: Trinn::Skriv { n }, ..t }),
                    stille(Handling::SkrivBit),
                ),
                None => (
                    (Ned { trinn: Trinn::Over, ..t }),
                    stille(Handling::Feilet(Feil::Ytre)),
                ),
            }
        },
        (Trinn::Bit, Hendelse::Slutt) => ((Ned { trinn: Trinn::Tom, ..t }), stille(Handling::Tom)),
        (Trinn::Skriv { n }, Hendelse::Skrevet { siden_ms }) => {
            let hentet = (t.hentet + n) as u64;
            (
                (Ned { trinn: Trinn::Bit, hentet, ..t }),
                if siden_ms > MELD_MS {
                    meldt(hentet, t.total, Status::Laster, Handling::NesteBit)
                } else {
                    stille(Handling::NesteBit)
                },
            )
        },
        (Trinn::Tom, Hendelse::Gjort) => etter_tom(o, t),
        (Trinn::Sum, Hendelse::Sum { stemmer }) => if stemmer {
            ((Ned { trinn: Trinn::Navngi, ..t }), stille(Handling::Navngi))
        } else {
            ((Ned { trinn: Trinn::SlettFeil, ..t }), stille(Handling::SlettFeil))
        },
        (Trinn::SlettStorrelse, Hendelse::Gjort) => (
            (Ned { trinn: Trinn::Over, ..t }),
            stille(Handling::Feilet(Feil::Storrelse { hentet: t.hentet, bytes: o.bytes })),
        ),
        (Trinn::SlettFeil, Hendelse::Gjort) => (
            (Ned { trinn: Trinn::Over, ..t }),
            stille(Handling::Feilet(Feil::Verifisering)),
        ),
        (Trinn::Navngi, Hendelse::Gjort) => (
            (Ned { trinn: Trinn::Over, ..t }),
            meldt(
                til_melding(o, t).0,
                til_melding(o, t).1,
                if o.har_sum {
                    Status::Verifisert
                } else {
                    Status::Ferdig
                },
                Handling::Ferdig,
            ),
        ),
        _ => ((Ned { trinn: Trinn::Over, ..t }), stille(Handling::Feilet(Feil::Ytre))),
    }
}

/// The state in which a download begins.
pub open spec fn begynnelse() -> Ned {
    Ned {
        trinn: Trinn::Mappe,
        valgt: 0,
        allerede: 0,
        start: 0,
        hentet: 0,
        total: 0,
        tomt: false,
    }
}

impl Ned {
    /// A download begins by making the folders.
    pub fn begynn() -> (r: (Ned, Steg))
        ensures
            r.0 == begynnelse(),
            r.1 == stille(Handling::LagMappe),
    {
        (
            Ned {
                trinn: Trinn::Mappe,
                valgt: 0,
                allerede: 0,
                start: 0,
                hentet: 0,
                total: 0,
                tomt: false,
            },
            Steg { melding: None, handling: Handling::LagMappe },
        )
    }

    /// Whether an event can come of what the download waits for.
    pub fn kan_motta(&self, h: Hendelse) -> (r: bool)
        ensures
            r == mulig(*self, h),
    {
        match (self.trinn, h) {
            (Trinn::Mappe, Hendelse::Gjort) => true,
            (Trinn::Mappe, Hendelse::Ytre) => true,
            (Trinn::Finnes, Hendelse::Finnes(_)) => true,
            (Trinn::Kandidat { n }, Hendelse::Finnes(_)) => n < u64::MAX,
            (Trinn::SlettGammel, Hendelse::Gjort) => true,
            (Trinn::Storrelse, Hendelse::Storrelse(_)) => true,
            (Trinn::SlettRest, Hendelse::Gjort) => true,
            (Trinn::RestStorrelse, Hendelse::Storrelse(_)) => true,
            (Trinn::Portal, Hendelse::Portal { status: _, adresse: _ }) => true,
            (Trinn::Portal, Hendelse::Ytre) => true,
            (Trinn::Lager, Hendelse::Lager { status: _, lengde }) => self.allerede <= u64::MAX
                - lengde,
            (Trinn::Lager, Hendelse::Ytre) => true,
            (Trinn::Apne, Hendelse::Gjort) => true,
            (Trinn::Apne, Hendelse::Ytre) => true,
            (Trinn::Bit, Hendelse::Bit { n, avbrutt: _ }) => match n {
                Some(n) => self.hentet <= u64::MAX - n,
                None => true,
            },
            (Trinn::Bit, Hendelse::Slutt) => true,
            (Trinn::Skriv { n }, Hendelse::Skrevet { siden_ms: _ }) => self.hentet <= u64::MAX - n,
            (Trinn::Skriv { n: _ }, Hendelse::Ytre) => true,
            (Trinn::Tom, Hendelse::Gjort) => true,
            (Trinn::Tom, Hendelse::Ytre) => true,
            (Trinn::Sum, Hendelse::Sum { stemmer: _ }) => true,
            (Trinn::SlettStorrelse, Hendelse::Gjort) => true,
            (Trinn::SlettFeil, Hendelse::Gjort) => true,
            (Trinn::Navngi, Hendelse::Gjort) => true,
            (Trinn::Navngi, Hendelse::Ytre) => true,
            _ => false,
        }
    }

    fn til(&self, trinn: Trinn) -> (r: Ned)
        ensures
            r == (Ned { trinn, ..*self }),
    {
        Ned {
            trinn,
            valgt: self.valgt,
            allerede: self.allerede,
            start: self.start,
            hentet: self.hentet,
            total: self.total,
            tomt: self.tomt,
        }
    }

    fn meldes(&self, o: Oppgave) -> (r: (u64, u64))
        ensures
            r == til_melding(o, *self),
    {
        if self.tomt {
            (o.bytes, o.bytes)
        } else {
            (self.hentet, self.total)
        }
    }
}

fn stille_steg(handling: Handling) -> (r: Steg)
    ensures
        r == stille(handling),
{
    Steg { melding: None, handling }
}

fn meldt_steg(hentet: u64, total: u64, status: Status, handling: Handling) -> (r: Steg)
    ensures
        r == meldt(hentet, total, status, handling),
{
    Steg { melding: Some(Melding { hentet, total, status }), handling }
}

/// Decides what the portal's answer leads to: a failure, or a question to the storage,
/// which is at the address that was just asked where `true`.
pub fn tolk_portal(status: u16, adresse: Option<bool>) -> (r: Result<bool, Feil>)
    ensures
        r == etter_portal(status, adresse),
{
    if status == 301 || status == 302 || status == 303 || status == 307 || status == 308 {
        match adresse {
            Some(samme) => Ok(samme),
            None => Err(Feil::UtenLocation),
        }
    } else if status == 403 {
        Err(Feil::Blokkert)
    } else if status == 401 {
        Err(Feil::UgyldigNokkel)
    } else if 200 <= status && status < 300 {
        Ok(true)
    } else {
        Err(Feil::Portalen(status))
    }
}

fn tolk_lager(o: Oppgave, t: Ned, status: u16, lengde: u64) -> (r: (Ned, Steg))
    requires
        t.allerede + lengde <= u64::MAX,
    ensures
        r == etter_lager(o, t, status, lengde),
{
    if status == 206 || status == 200 {
        let start: u64 = if status == 206 {
            t.allerede
        } else {
            0
        };
        let total: u64 = if o.bytes > 0 {
            o.bytes
        } else {
            start + lengde
        };
        (
            Ned {
                trinn: Trinn::Apne,
                valgt: t.valgt,
                allerede: t.allerede,
                start,
                hentet: start,
                total,
                tomt: t.tomt,
            },
            stille_steg(Handling::Apne { bak: status == 206 }),
        )
    } else if status == 416 {
        let ny = Ned {
            trinn: t.trinn,
            valgt: t.valgt,
            allerede: t.allerede,
            start: t.allerede,
            hentet: t.allerede,
            total: o.bytes,
            tomt: true,
        };
        if o.bytes > 0 && t.allerede != o.bytes {
            (ny.til(Trinn::SlettStorrelse), stille_steg(Handling::SlettFeil))
        } else {
            tolk_slutt(o, ny)
        }
    } else {
        (t.til(Trinn::Over), stille_steg(Handling::Feilet(Feil::Lageret(status))))
    }
}

fn tolk_slutt(o: Oppgave, t: Ned) -> (r: (Ned, Steg))
    ensures
        r == etter_tom(o, t),
{
    if o.bytes > 0 && t.hentet != o.bytes {
        (
            t.til(Trinn::Over),
            stille_steg(
                Handling::Feilet(Feil::Ufullstendig { hentet: t.hentet, bytes: o.bytes }),
            ),
        )
    } else if o.har_sum {
        let (hentet, total) = t.meldes(o);
        (t.til(Trinn::Sum), meldt_steg(hentet, total, Status::Hash, Handling::BeregnSum))
    } else {
        (t.til(Trinn::Navngi), stille_steg(Handling::Navngi))
    }
}

/// Takes the next step of a download.
pub fn last_ned_en(o: Oppgave, t: Ned, h: Hendelse) -> (r: (Ned, Steg))
    requires
        mulig(t, h),
    ensures
        r == neste(o, t, h),
{
    match (t.trinn, h) {
        (Trinn::Mappe, Hendelse::Gjort) => {
            (t.til(Trinn::Finnes), stille_steg(Handling::SeEtterFil))
        },
        (Trinn::Finnes, Hendelse::Finnes(der)) => {
            if der && o.konflikt == Konflikt::Begge {
                (t.til(Trinn::Kandidat { n: 2 }), stille_steg(Handling::SeEtterKandidat { n: 2 }))
            } else if der && o.konflikt == Konflikt::Overskriv {
                (t.til(Trinn::SlettGammel), stille_steg(Handling::SlettGammel))
            } else {
                (t.til(Trinn::Storrelse), stille_steg(Handling::SeStorrelse))
            }
        },
        (Trinn::Kandidat { n }, Hendelse::Finnes(der)) => {
            if der {
                (
                    t.til(Trinn::Kandidat { n: n + 1 }),
                    stille_steg(Handling::SeEtterKandidat { n: n + 1 }),
                )
            } else {
                let mut ny = t.til(Trinn::Storrelse);
                ny.valgt = n;
                (ny, stille_steg(Handling::SeStorrelse))
            }
        },
        (Trinn::SlettGammel, Hendelse::Gjort) => {
            (t.til(Trinn::Storrelse), stille_steg(Handling::SeStorrelse))
        },
        (Trinn::Storrelse, Hendelse::Storrelse(s)) => {
            let hel = match s {
                Some(n) => o.konflikt != Konflikt::Overskriv && o.bytes > 0 && n == o.bytes,
                None => false,
            };
            if hel {
                (t.til(Trinn::SlettRest), stille_steg(Handling::SlettRest))
            } else {
                (t.til(Trinn::RestStorrelse), stille_steg(Handling::SeRest))
            }
        },
        (Trinn::SlettRest, Hendelse::Gjort) => {
            (
                t.til(Trinn::Over),
                meldt_steg(o.bytes, o.bytes, Status::Hoppet, Handling::Ferdig),
            )
        },
        (Trinn::RestStorrelse, Hendelse::Storrelse(s)) => {
            let mut ny = t.til(Trinn::Portal);
            ny.allerede = match s {
                Some(n) => n,
                None => 0,
            };
            (ny, stille_steg(Handling::SporPortal { med_nokkel: !o.egen_url }))
        },
        (Trinn::Portal, Hendelse::Portal { status, adresse }) => {
            match tolk_portal(status, adresse) {
                Ok(samme) => {
                    let fra = if t.allerede > 0 {
                        Some(t.allerede)
                    } else {
                        None
                    };
                    (
                        t.til(Trinn::Lager),
                        stille_steg(
                            Handling::SporLager { med_nokkel: samme && !o.egen_url, fra },
                        ),
                    )
                },
                Err(f) => (t.til(Trinn::Over), stille_steg(Handling::Feilet(f))),
            }
        },
        (Trinn::Lager, Hendelse::Lager { status, lengde }) => tolk_lager(o, t, status, lengde),
        (Trinn::Apne, Hendelse::Gjort) => {
            (t.til(Trinn::Bit), stille_steg(Handling::NesteBit))
        },
        (Trinn::Bit, Hendelse::Bit { n, avbrutt }) => {
            if avbrutt {
                (t.til(Trinn::Over), stille_steg(Handling::Feilet(Feil::Avbrutt)))
            } else {
                match n {
                    Some(n) => (t.til(Trinn::Skriv { n }), stille_steg(Handling::SkrivBit)),
                    None => (t.til(Trinn::Over), stille_steg(Handling::Feilet(Feil::Ytre))),
                }
            }
        },
        (Trinn::Bit, Hendelse::Slutt) => (t.til(Trinn::Tom), stille_steg(Handling::Tom)),
        (Trinn::Skriv { n }, Hendelse::Skrevet { siden_ms }) => {
            let mut ny = t.til(Trinn::Bit);
            ny.hentet = t.hentet + n;
            if siden_ms > MELD_MS {
                (ny, meldt_steg(ny.hentet, t.total, Status::Laster, Handling::NesteBit))
            } else {
                (ny, stille_steg(Handling::NesteBit))
            }
        },
        (Trinn::Tom, Hendelse::Gjort) => tolk_slutt(o, t),
        (Trinn::Sum, Hendelse::Sum { stemmer }) => {
            if stemmer {
                (t.til(Trinn::Navngi), stille_steg(Handling::Navngi))
            } else {
                (t.til(Trinn::SlettFeil), stille_steg(Handling::SlettFeil))
            }
        },
        (Trinn::SlettStorrelse, Hendelse::Gjort) => {
            (
                t.til(Trinn::Over),
                stille_steg(
                    Handling::Feilet(Feil::Storrelse { hentet: t.hentet, bytes: o.bytes }),
                ),
            )
        },
        (Trinn::SlettFeil, Hendelse::Gjort) => {
            (t.til(Trinn::Over), stille_steg(Handling::Feilet(Feil::Verifisering)))
        },
        (Trinn::Navngi, Hendelse::Gjort) => {
            let status = if o.har_sum {
                Status::Verifisert
            } else {
                Status::Ferdig
            };
            let (hentet, total) = t.meldes(o);
            (t.til(Trinn::Over), meldt_steg(hentet, total, status, Handling::Ferdig))
        },
        _ => (t.til(Trinn::Over), stille_steg(Handling::Feilet(Feil::Ytre))),
    }
}

/// The state and the step that a course of events leads to.
pub open spec fn kjort(o: Oppgave, hs: Seq<Hendelse>) -> (Ned, Steg)
    decreases hs.len(),
{
    if hs.len() == 0 {
        (begynnelse(), stille(Handling::LagMappe))
    } else {
        neste(o, kjort(o, hs.drop_last()).0, hs.last())
    }
}

/// Whether each event can come of the step before it.
pub open spec fn mulig_lop(o: Oppgave, hs: Seq<Hendelse>) -> bool
    decreases hs.len(),
{
    hs.len() > 0 ==> mulig_lop(o, hs.drop_last()) && mulig(kjort(o, hs.drop_last()).0, hs.last())
}

/// The bytes that a course of events has written.
pub open spec fn skrevet(o: Oppgave, hs: Seq<Hendelse>) -> int
    decreases hs.len(),
{
    if hs.len() == 0 {
        0
    } else {
        skrevet(o, hs.drop_last()) + match (kjort(o, hs.drop_last()).0.trinn, hs.last()) {
            (Trinn::Skriv { n }, Hendelse::Skrevet { .. }) => n as int,
            _ => 0,
        }
    }
}

/// Whether the file that was last looked for was there.
pub open spec fn sist_sett(hs: Seq<Hendelse>) -> Option<bool>
    decreases hs.len(),
{
    if hs.len() == 0 {
        None
    } else {
        match hs.last() {
            Hendelse::Finnes(der) => Some(der),
            _ => sist_sett(hs.drop_last()),
        }
    }
}

/// Whether the download has begun to fetch.
pub open spec fn henter(t: Trinn) -> bool {
    match t {
        Trinn::Apne => true,
        Trinn::Bit => true,
        Trinn::Skriv { .. } => true,
        Trinn::Tom => true,
        Trinn::Sum => true,
        Trinn::SlettStorrelse => true,
        Trinn::SlettFeil => true,
        Trinn::Navngi => true,
        _ => false,
    }
}

/// What holds in every state that a download can reach.
proof fn alltid(o: Oppgave, hs: Seq<Hendelse>)
    requires
        mulig_lop(o, hs),
    ensures
        ({
            let t = kjort(o, hs).0;
            &&& henter(t.trinn) ==> t.hentet == t.start + skrevet(o, hs) && (t.start == 0
                || t.start == t.allerede)
            &&& !henter(t.trinn) && t.trinn != Trinn::Over ==> skrevet(o, hs) == 0
            &&& (t.trinn == Trinn::Sum || t.trinn == Trinn::Navngi) ==> (o.bytes > 0 ==> t.hentet
                == o.bytes)
        }),
    decreases hs.len(),
{
    if hs.len() > 0 {
        alltid(o, hs.drop_last());
    }
}

/// A download gets its name only when it is whole: all of its bytes are there, where the
/// server says how many, and the checksum was found right, where the server has one.
pub proof fn navn_bare_til_hel_fil(o: Oppgave, hs: Seq<Hendelse>)
    requires
        mulig_lop(o, hs),
        kjort(o, hs).1.handling == Handling::Navngi,
    ensures
        hs.len() > 0,
        o.bytes > 0 ==> kjort(o, hs).0.hentet == o.bytes,
        o.har_sum ==> hs.last() == (Hendelse::Sum { stemmer: true }),
{
    alltid(o, hs);
}

/// A download goes on where it was cut off: the storage is asked from the end of the
/// unfinished file on, and the count of bytes is at all times what was there, or zero
/// where the storage began anew, and what has been written since.
pub proof fn fortsetter_der_den_slapp(o: Oppgave, hs: Seq<Hendelse>)
    requires
        mulig_lop(o, hs),
    ensures
        ({
            let (t, s) = kjort(o, hs);
            &&& henter(t.trinn) ==> t.hentet == t.start + skrevet(o, hs)
            &&& henter(t.trinn) ==> t.start == 0 || t.start == t.allerede
            &&& s.handling matches Handling::SporLager { fra, .. } ==> fra == if t.allerede > 0 {
                Some(t.allerede)
            } else {
                None
            }
            &&& s.handling matches Handling::Apne { bak } ==> t.start == if bak {
                t.allerede
            } else {
                0
            }
        }),
{
    alltid(o, hs);
}

/// A download that fails verification, or of which nothing is left to fetch though its size
/// is wrong, is deleted before it is given up, so that nothing goes on from it. The words of
/// the first are kept for a checksum that was found wrong.
pub proof fn feil_fil_slettes(o: Oppgave, hs: Seq<Hendelse>)
    requires
        mulig_lop(o, hs),
        kjort(o, hs).1.handling == Handling::Feilet(Feil::Verifisering) || kjort(
            o,
            hs,
        ).1.handling matches Handling::Feilet(Feil::Storrelse { .. }),
    ensures
        hs.len() > 1,
        kjort(o, hs.drop_last()).1.handling == Handling::SlettFeil,
        kjort(o, hs).1.handling == Handling::Feilet(Feil::Verifisering) ==> hs[hs.len() - 2] == (
        Hendelse::Sum { stemmer: false }),
        kjort(o, hs).1.handling matches Handling::Feilet(Feil::Storrelse { hentet, bytes })
            ==> hentet != bytes && bytes == o.bytes && (hs[hs.len() - 2] matches Hendelse::Lager {
            status,
            ..
        } && status == 416),
{
    let foer = hs.drop_last();
    assert(hs.len() > 0);
    if foer.len() > 0 {
        let t = kjort(o, foer.drop_last()).0;
        assert(kjort(o, foer) == neste(o, t, foer.last()));
        assert(foer.last() == hs[hs.len() - 2]);
    }
}

/// Where the storage has nothing left to send, the last report says that all the bytes are
/// there that the server speaks of: none of none where it does not say how many.
pub proof fn ingenting_igjen_meldes(o: Oppgave, hs: Seq<Hendelse>)
    requires
        mulig_lop(o, hs),
        kjort(o, hs).0.tomt,
        kjort(o, hs).1.handling == Handling::Ferdig,
    ensures
        kjort(o, hs).1.melding matches Some(m) && m.hentet == o.bytes && m.total == o.bytes,
{
}

/// The key goes to the portal alone: a file with an address of its own is fetched without
/// it, whatever that address answers, and of any other file a second question carries it
/// only where it goes to the address that the portal was asked at.
pub proof fn nokkelen_gaar_ikke_videre(o: Oppgave, hs: Seq<Hendelse>)
    requires
        mulig_lop(o, hs),
    ensures
        kjort(o, hs).1.handling matches Handling::SporPortal { med_nokkel } ==> med_nokkel
            == !o.egen_url,
        kjort(o, hs).1.handling matches Handling::SporLager { med_nokkel, .. } ==> {
            &&& hs.len() > 0
            &&& hs.last() matches Hendelse::Portal { status, adresse } && (med_nokkel
                ==> !o.egen_url && (adresse == Some(true) || 200 <= status < 300))
        },
{
}

/// A file that is there is passed over only where its size is the one that the server
/// gives, and never where it is always to be written over.
pub proof fn hopper_bare_over_hel_fil(o: Oppgave, hs: Seq<Hendelse>)
    requires
        mulig_lop(o, hs),
        kjort(o, hs).1.handling == Handling::SlettRest,
    ensures
        o.konflikt != Konflikt::Overskriv,
        o.bytes > 0,
        hs.len() > 0,
        hs.last() == Hendelse::Storrelse(Some(o.bytes)),
{
}

proof fn begge_alltid(o: Oppgave, hs: Seq<Hendelse>)
    requires
        mulig_lop(o, hs),
        o.konflikt == Konflikt::Begge,
    ensures
        ({
            let (t, s) = kjort(o, hs);
            &&& s.handling != Handling::SlettGammel
            &&& t.trinn != Trinn::SlettGammel
            &&& t.trinn != Trinn::Mappe && t.trinn != Trinn::Finnes && !(t.trinn is Kandidat)
                && t.trinn != Trinn::Over ==> sist_sett(hs) == Some(false)
        }),
    decreases hs.len(),
{
    if hs.len() > 0 {
        begge_alltid(o, hs.drop_last());
    }
}

/// Where both files are to be kept, no file is ever deleted or written over: the name
/// that the new file gets was seen to be free.
pub proof fn begge_beholdes(o: Oppgave, hs: Seq<Hendelse>)
    requires
        mulig_lop(o, hs),
        o.konflikt == Konflikt::Begge,
    ensures
        kjort(o, hs).1.handling != Handling::SlettGammel,
        kjort(o, hs).1.handling == Handling::Navngi ==> sist_sett(hs) == Some(false),
{
    begge_alltid(o, hs);
}

/// A download that is over takes no more steps.
pub proof fn over_er_over(t: Ned, h: Hendelse)
    requires
        t.trinn == Trinn::Over,
    ensures
        !mulig(t, h),
{
}

/// What the disk has answered to each question whether a name is taken, in order: the
/// file's own name first, then `name (2)`, `name (3)` and so on.
pub open spec fn opptatt_svar(hs: Seq<Hendelse>) -> Seq<bool>
    decreases hs.len(),
{
    if hs.len() == 0 {
        Seq::empty()
    } else {
        match hs.last() {
            Hendelse::Finnes(der) => opptatt_svar(hs.drop_last()).push(der),
            _ => opptatt_svar(hs.drop_last()),
        }
    }
}

proof fn navnevalget(o: Oppgave, hs: Seq<Hendelse>)
    requires
        mulig_lop(o, hs),
    ensures
        ({
            let (t, s) = kjort(o, hs);
            let f = opptatt_svar(hs);
            let n = f.len() as int;
            &&& t.trinn == Trinn::Mappe || t.trinn == Trinn::Finnes ==> n == 0 && t.valgt == 0
            &&& t.trinn matches Trinn::Kandidat { n: k } ==> o.konflikt == Konflikt::Begge && k
                == n + 1 && n >= 1 && t.valgt == 0 && s.handling == (Handling::SeEtterKandidat {
                n: k,
            }) && forall|i: int| 0 <= i < n ==> #[trigger] f[i]
            &&& s.handling is SeEtterKandidat ==> t.trinn is Kandidat
            &&& o.konflikt != Konflikt::Begge ==> t.valgt == 0 && n <= 1
            &&& o.konflikt == Konflikt::Begge && !(t.trinn is Kandidat) && t.trinn != Trinn::Mappe
                && t.trinn != Trinn::Finnes && t.trinn != Trinn::Over ==> {
                &&& n >= 1
                &&& !f[n - 1]
                &&& forall|i: int| 0 <= i < n - 1 ==> #[trigger] f[i]
                &&& t.valgt == if n == 1 {
                    0
                } else {
                    n
                }
            }
        }),
    decreases hs.len(),
{
    if hs.len() > 0 {
        navnevalget(o, hs.drop_last());
    }
}

/// Where both files are to be kept, the new one gets the first name that is free: its own
/// where that was, else the least number from two on under which no file was found. Each of
/// the names before it was asked for, one after another, and was taken.
pub proof fn begge_tar_forste_ledige_navn(o: Oppgave, hs: Seq<Hendelse>)
    requires
        mulig_lop(o, hs),
        o.konflikt == Konflikt::Begge,
    ensures
        kjort(o, hs).1.handling == Handling::Navngi ==> {
            let f = opptatt_svar(hs);
            &&& f.len() >= 1
            &&& f.last() == false
            &&& forall|i: int| 0 <= i < f.len() - 1 ==> #[trigger] f[i] == true
            &&& f.len() == 1 ==> kjort(o, hs).0.valgt == 0
            &&& f.len() > 1 ==> kjort(o, hs).0.valgt == f.len()
        },
        kjort(o, hs).1.handling matches Handling::SeEtterKandidat { n } ==> n
            == opptatt_svar(hs).len() + 1 && n >= 2,
{
    navnevalget(o, hs);
    alltid(o, hs);
    if kjort(o, hs).1.handling == Handling::Navngi {
        navngis_bare_der(o, hs);
    }
}

proof fn navngis_bare_der(o: Oppgave, hs: Seq<Hendelse>)
    requires
        mulig_lop(o, hs),
        kjort(o, hs).1.handling == Handling::Navngi,
    ensures
        kjort(o, hs).0.trinn == Trinn::Navngi,
{
}

/// Where not both are to be kept, the file gets its own name.
pub proof fn ellers_eget_navn(o: Oppgave, hs: Seq<Hendelse>)
    requires
        mulig_lop(o, hs),
        o.konflikt != Konflikt::Begge,
    ensures
        kjort(o, hs).0.valgt == 0,
        !(kjort(o, hs).1.handling is SeEtterKandidat),
{
    navnevalget(o, hs);
}

/// What becomes of a file that is there under the name: it is deleted where it is always to
/// be written over, and else it is left alone, and its size is looked at.
pub proof fn fila_som_er_der(o: Oppgave, t: Ned)
    requires
        t.trinn == Trinn::Finnes,
    ensures
        o.konflikt == Konflikt::Overskriv <==> neste(o, t, Hendelse::Finnes(true)).1.handling
            == Handling::SlettGammel,
        o.konflikt == Konflikt::Hopp <==> neste(o, t, Hendelse::Finnes(true)).1.handling
            == Handling::SeStorrelse,
        o.konflikt == Konflikt::Begge <==> neste(o, t, Hendelse::Finnes(true)).1.handling == (
        Handling::SeEtterKandidat { n: 2 }),
        neste(o, t, Hendelse::Finnes(false)).1.handling == Handling::SeStorrelse,
{
}

/// A file of the size that the server gives is passed over, unless it is always to be
/// written over, and the report says so; no other is.
pub proof fn hel_fil_hoppes_over(o: Oppgave, t: Ned, storrelse: Option<u64>)
    requires
        t.trinn == Trinn::Storrelse,
    ensures
        ({
            let (u, s) = neste(o, t, Hendelse::Storrelse(storrelse));
            let hoppet = Melding { hentet: o.bytes, total: o.bytes, status: Status::Hoppet };
            &&& s.melding is None
            &&& o.konflikt != Konflikt::Overskriv && o.bytes > 0 && storrelse == Some(o.bytes) ==> {
                &&& s.handling == Handling::SlettRest
                &&& neste(o, u, Hendelse::Gjort).1.handling == Handling::Ferdig
                &&& neste(o, u, Hendelse::Gjort).1.melding == Some(hoppet)
            }
            &&& o.konflikt == Konflikt::Overskriv || o.bytes == 0 || storrelse != Some(o.bytes) ==> {
                &&& s.handling == Handling::SeRest
                &&& u.trinn == Trinn::RestStorrelse
            }
        }),
{
}

/// What the portal's answer leads to. A file behind another address is asked for there; one
/// that the portal has itself is asked for at the portal again; and each refusal is told
/// apart from the others.
pub proof fn portalens_svar(o: Oppgave, t: Ned, status: u16, adresse: Option<bool>)
    requires
        t.trinn == Trinn::Portal,
    ensures
        ({
            let (u, s) = neste(o, t, Hendelse::Portal { status, adresse });
            let videre = status == 301 || status == 302 || status == 303 || status == 307 || status
                == 308;
            let bra = 200 <= status <= 299;
            &&& s.melding is None
            &&& s.handling == Handling::Feilet(Feil::UgyldigNokkel) <==> status == 401
            &&& s.handling == Handling::Feilet(Feil::Blokkert) <==> status == 403
            &&& s.handling == Handling::Feilet(Feil::UtenLocation) <==> videre && adresse is None
            &&& s.handling is SporLager <==> bra || videre && adresse is Some
            &&& !bra && !videre && status != 401 && status != 403 ==> s.handling
                == Handling::Feilet(Feil::Portalen(status))
            &&& s.handling is SporLager ==> {
                &&& u.trinn == Trinn::Lager
                &&& u.allerede == t.allerede
                &&& s.handling->SporLager_med_nokkel <==> !o.egen_url && (bra || adresse == Some(true))
                &&& t.allerede > 0 ==> s.handling->SporLager_fra == Some(t.allerede)
                &&& t.allerede == 0 ==> s.handling->SporLager_fra is None
            }
        }),
{
}

/// What the storage's answer leads to: with a part of the file, that part is put behind what
/// is there; with the whole, the file is begun anew; and each refusal is given up with its
/// status.
pub proof fn lagerets_svar(o: Oppgave, t: Ned, status: u16, lengde: u64)
    requires
        t.trinn == Trinn::Lager,
        t.allerede + lengde <= u64::MAX,
    ensures
        ({
            let (u, s) = neste(o, t, Hendelse::Lager { status, lengde });
            &&& status == 206 ==> {
                &&& s.handling == (Handling::Apne { bak: true })
                &&& u.trinn == Trinn::Apne
                &&& u.hentet == t.allerede
                &&& u.total == if o.bytes > 0 {
                    o.bytes as int
                } else {
                    t.allerede + lengde
                }
            }
            &&& status == 200 ==> {
                &&& s.handling == (Handling::Apne { bak: false })
                &&& u.trinn == Trinn::Apne
                &&& u.hentet == 0
                &&& u.total == if o.bytes > 0 {
                    o.bytes
                } else {
                    lengde
                }
            }
            &&& status == 416 && o.bytes > 0 && t.allerede != o.bytes ==> s.handling
                == Handling::SlettFeil
            &&& status == 416 && (o.bytes == 0 || t.allerede == o.bytes) ==> s.handling
                == if o.har_sum {
                Handling::BeregnSum
            } else {
                Handling::Navngi
            }
            &&& status != 200 && status != 206 && status != 416 ==> s.handling == Handling::Feilet(
                Feil::Lageret(status),
            )
        }),
{
}

/// A user's request to stop is heeded at the next piece, before anything is written, and a
/// download is given up for it only then.
pub proof fn avbrudd_stopper_nedlastingen(o: Oppgave, t: Ned, h: Hendelse)
    requires
        mulig(t, h),
    ensures
        h matches Hendelse::Bit { avbrutt, .. } ==> (avbrutt <==> neste(o, t, h).1.handling
            == Handling::Feilet(Feil::Avbrutt)),
        neste(o, t, h).1.handling == Handling::Feilet(Feil::Avbrutt) ==> h is Bit,
        h matches Hendelse::Bit { n: Some(_), avbrutt: false } ==> neste(o, t, h).1.handling
            == Handling::SkrivBit,
{
}

/// When all pieces are there, they are counted: too few or too many are a failure that says
/// how many there are and how many there should be, and leaves what is there to go on from.
pub proof fn ufullstendig_meldes(o: Oppgave, t: Ned)
    requires
        t.trinn == Trinn::Tom,
    ensures
        ({
            let (u, s) = neste(o, t, Hendelse::Gjort);
            let feil = Feil::Ufullstendig { hentet: t.hentet, bytes: o.bytes };
            &&& o.bytes > 0 && t.hentet != o.bytes <==> s.handling == Handling::Feilet(feil)
            &&& !(o.bytes > 0 && t.hentet != o.bytes) && o.har_sum ==> s.handling
                == Handling::BeregnSum
            &&& !(o.bytes > 0 && t.hentet != o.bytes) && !o.har_sum ==> s.handling
                == Handling::Navngi
        }),
{
}

/// The checksum decides: the file gets its name where it is right, and is deleted where it is
/// not.
pub proof fn summen_avgjor(o: Oppgave, t: Ned, stemmer: bool)
    requires
        t.trinn == Trinn::Sum,
    ensures
        stemmer <==> neste(o, t, Hendelse::Sum { stemmer }).1.handling == Handling::Navngi,
        !stemmer <==> neste(o, t, Hendelse::Sum { stemmer }).1.handling == Handling::SlettFeil,
{
}

/// A report while the pieces arrive comes no sooner than 150 milliseconds after the last, and
/// says how many bytes are there, those of the piece that was just written with them.
pub proof fn rapport_underveis(o: Oppgave, t: Ned, n: u64, siden_ms: u64)
    requires
        t.trinn == (Trinn::Skriv { n }),
        t.hentet + n <= u64::MAX,
    ensures
        ({
            let (u, s) = neste(o, t, Hendelse::Skrevet { siden_ms });
            &&& s.handling == Handling::NesteBit
            &&& u.hentet == t.hentet + n
            &&& u.total == t.total
            &&& siden_ms <= 150 ==> s.melding is None
            &&& siden_ms > 150 ==> (s.melding matches Some(m) && m.hentet == t.hentet + n
                && m.total == t.total && m.status == Status::Laster)
        }),
{
}

/// The events when pieces of these sizes arrive, each written so many milliseconds after the
/// last report.
pub open spec fn biter_kommer(biter: Seq<(u64, u64)>) -> Seq<Hendelse>
    decreases biter.len(),
{
    if biter.len() == 0 {
        Seq::empty()
    } else {
        biter_kommer(biter.drop_last()).push(
            Hendelse::Bit { n: Some(biter.last().0), avbrutt: false },
        ).push(Hendelse::Skrevet { siden_ms: biter.last().1 })
    }
}

/// How many bytes pieces have together.
pub open spec fn bytes_i(biter: Seq<(u64, u64)>) -> int
    decreases biter.len(),
{
    if biter.len() == 0 {
        0
    } else {
        bytes_i(biter.drop_last()) + biter.last().0
    }
}

proof fn en_hendelse_til(o: Oppgave, hs: Seq<Hendelse>, h: Hendelse)
    ensures
        kjort(o, hs.push(h)) == neste(o, kjort(o, hs).0, h),
{
    assert(hs.push(h).drop_last() =~= hs);
}

proof fn bitene_skrives(o: Oppgave, hs: Seq<Hendelse>, biter: Seq<(u64, u64)>)
    requires
        kjort(o, hs).0.trinn == Trinn::Bit,
        kjort(o, hs).0.hentet + bytes_i(biter) <= u64::MAX,
    ensures
        bytes_i(biter) >= 0,
        ({
            let t = kjort(o, hs).0;
            let u = kjort(o, hs + biter_kommer(biter)).0;
            &&& u.trinn == Trinn::Bit
            &&& u.hentet == t.hentet + bytes_i(biter)
            &&& u.total == t.total
            &&& u.tomt == t.tomt
        }),
    decreases biter.len(),
{
    if biter.len() == 0 {
        assert(hs + biter_kommer(biter) =~= hs);
    } else {
        let foran = biter.drop_last();
        bitene_skrives(o, hs, foran);
        let x = hs + biter_kommer(foran);
        let e = Hendelse::Bit { n: Some(biter.last().0), avbrutt: false };
        let f = Hendelse::Skrevet { siden_ms: biter.last().1 };
        en_hendelse_til(o, x, e);
        en_hendelse_til(o, x.push(e), f);
        assert(hs + biter_kommer(biter) =~= x.push(e).push(f));
    }
}

/// A download that nothing disturbs succeeds: where the storage sends the file, or the rest
/// of it, in pieces that make up its size, and the checksum is right where the server has
/// one, the file gets its name, and the last report counts all of its bytes.
pub proof fn uforstyrret_nedlasting_lykkes(
    o: Oppgave,
    hs: Seq<Hendelse>,
    status: u16,
    lengde: u64,
    biter: Seq<(u64, u64)>,
)
    requires
        kjort(o, hs).0.trinn == Trinn::Lager,
        !kjort(o, hs).0.tomt,
        status == 200 || status == 206,
        kjort(o, hs).0.allerede + lengde <= u64::MAX,
        ({
            let hele = bytes_i(biter) + if status == 206 {
                kjort(o, hs).0.allerede as int
            } else {
                0
            };
            hele <= u64::MAX && (o.bytes > 0 ==> hele == o.bytes)
        }),
    ensures
        ({
            let foer = kjort(o, hs).0;
            let hele = bytes_i(biter) + if status == 206 {
                foer.allerede as int
            } else {
                0
            };
            let skrevet = (hs.push(Hendelse::Lager { status, lengde }).push(Hendelse::Gjort)
                + biter_kommer(biter)).push(Hendelse::Slutt).push(Hendelse::Gjort);
            let sjekket = if o.har_sum {
                skrevet.push(Hendelse::Sum { stemmer: true })
            } else {
                skrevet
            };
            let slutt = kjort(o, sjekket.push(Hendelse::Gjort)).1;
            &&& kjort(o, sjekket).1.handling == Handling::Navngi
            &&& slutt.handling == Handling::Ferdig
            &&& slutt.melding matches Some(m) && m.hentet == hele && m.status == (if o.har_sum {
                Status::Verifisert
            } else {
                Status::Ferdig
            }) && (o.bytes > 0 ==> m.total == o.bytes)
        }),
{
    let a = Hendelse::Lager { status, lengde };
    let x = hs.push(a);
    let y = x.push(Hendelse::Gjort);
    en_hendelse_til(o, hs, a);
    en_hendelse_til(o, x, Hendelse::Gjort);
    assert(kjort(o, y).0.trinn == Trinn::Bit);
    bitene_skrives(o, y, biter);
    let z = y + biter_kommer(biter);
    en_hendelse_til(o, z, Hendelse::Slutt);
    let z1 = z.push(Hendelse::Slutt);
    en_hendelse_til(o, z1, Hendelse::Gjort);
    let z2 = z1.push(Hendelse::Gjort);
    if o.har_sum {
        let e = Hendelse::Sum { stemmer: true };
        en_hendelse_til(o, z2, e);
        en_hendelse_til(o, z2.push(e), Hendelse::Gjort);
    } else {
        en_hendelse_til(o, z2, Hendelse::Gjort);
    }
}

/// A download goes on from all that is there of the unfinished file, and from the beginning
/// where there is none; and the portal is asked with the key, unless the file has an address
/// of its own.
pub proof fn resten_er_utgangspunktet(o: Oppgave, t: Ned, rest: Option<u64>)
    requires
        t.trinn == Trinn::RestStorrelse,
    ensures
        ({
            let (u, s) = neste(o, t, Hendelse::Storrelse(rest));
            &&& rest matches Some(n) ==> u.allerede == n
            &&& rest is None ==> u.allerede == 0
            &&& s.handling == (Handling::SporPortal { med_nokkel: !o.egen_url })
            &&& u.trinn == Trinn::Portal
            &&& u.valgt == t.valgt
        }),
{
}

/// What the disk or the network fails in is given up at once, in their words, and a piece
/// that does not arrive whole is such a failure.
pub proof fn ytre_feil_gir_opp(o: Oppgave, t: Ned)
    ensures
        mulig(t, Hendelse::Ytre) ==> neste(o, t, Hendelse::Ytre).1.handling == Handling::Feilet(
            Feil::Ytre,
        ),
        t.trinn == Trinn::Bit ==> neste(
            o,
            t,
            Hendelse::Bit { n: None, avbrutt: false },
        ).1.handling == Handling::Feilet(Feil::Ytre),
{
}

/// Whatever comes of what the application is told to do, the download can take it: no course
/// of events gets stuck before it is over.
pub proof fn hvert_svar_kan_tas(o: Oppgave, hs: Seq<Hendelse>, h: Hendelse)
    requires
        mulig_lop(o, hs),
        ({
            let t = kjort(o, hs).0;
            match kjort(o, hs).1.handling {
                Handling::LagMappe => h is Gjort || h is Ytre,
                Handling::SeEtterFil => h is Finnes,
                Handling::SeEtterKandidat { n } => h is Finnes && n < u64::MAX,
                Handling::SlettGammel => h is Gjort,
                Handling::SeStorrelse => h is Storrelse,
                Handling::SlettRest => h is Gjort,
                Handling::SeRest => h is Storrelse,
                Handling::SporPortal { .. } => h is Portal || h is Ytre,
                Handling::SporLager { .. } => h is Ytre || (h matches Hendelse::Lager {
                    lengde,
                    ..
                } && t.allerede + lengde <= u64::MAX),
                Handling::Apne { .. } => h is Gjort || h is Ytre,
                Handling::NesteBit => h is Slutt || (h matches Hendelse::Bit { n, .. } && (n is Some
                    ==> t.hentet + n->0 <= u64::MAX)),
                Handling::SkrivBit => h is Skrevet || h is Ytre,
                Handling::Tom => h is Gjort || h is Ytre,
                Handling::BeregnSum => h is Sum,
                Handling::SlettFeil => h is Gjort,
                Handling::Navngi => h is Gjort || h is Ytre,
                Handling::Ferdig => false,
                Handling::Feilet(_) => false,
            }
        }),
    ensures
        mulig(kjort(o, hs).0, h),
{
    navnevalget(o, hs);
    if hs.len() > 0 {
        let t = kjort(o, hs.drop_last()).0;
        assert(kjort(o, hs) == neste(o, t, hs.last()));
        assert(mulig(t, hs.last()));
    }
}

/// A download is over exactly when the application is told that it is done or that it failed.
pub proof fn over_naar_den_er_ferdig(o: Oppgave, hs: Seq<Hendelse>)
    requires
        mulig_lop(o, hs),
    ensures
        kjort(o, hs).0.trinn == Trinn::Over <==> kjort(o, hs).1.handling == Handling::Ferdig
            || kjort(o, hs).1.handling is Feilet,
{
    if hs.len() > 0 {
        let t = kjort(o, hs.drop_last()).0;
        assert(kjort(o, hs) == neste(o, t, hs.last()));
    }
}

/// Each choice has its word, and every word that is none of them stands for the usual choice.
pub proof fn hvert_valg_har_sitt_ord(s: Seq<char>)
    ensures
        konflikt_av(s) == Konflikt::Begge <==> s == "begge"@,
        konflikt_av(s) == Konflikt::Overskriv <==> s == "overskriv"@,
        konflikt_av(s) == Konflikt::Hopp <==> s != "begge"@ && s != "overskriv"@,
{
    reveal_strlit("begge");
    reveal_strlit("overskriv");
    assert("begge"@.len() == 5 && "overskriv"@.len() == 9);
}

/// How many times the download of a file is tried.
pub const FORSOK_NED: u32 = 3;

/// Milliseconds between two tries.
pub const PAUSE_NED_MS: u64 = 800;

} // verus!
