//! Relays that run inside a process, on the loopback address.

use vstd::prelude::*;

use crate::json::Json;
use crate::text::{decimal_of, opt_str, opt_text, to_decimal};

verus! {

/// What a database says of an event that is handed to it.
#[derive(Debug, Clone, Copy, PartialEq, Eq, Structural)]
pub enum SaveStatus {
    /// The event was taken; a relay broadcasts it.
    Success,
    /// The event was refused.
    Rejected,
}

/// What a database knows of an event id.
#[derive(Debug, Clone, Copy, PartialEq, Eq, Structural)]
pub enum EventStatus {
    Saved,
    Deleted,
    NotExistent,
}

/// What a database can do.
#[derive(Debug, Clone, Copy, PartialEq, Eq, Structural)]
pub struct Features {
    pub persistent: bool,
    pub event_expiration: bool,
    pub full_text_search: bool,
    pub request_to_vanish: bool,
}

/// A database that takes every event and keeps none. A relay on top of it still
/// broadcasts what is published, and answers every query for stored events at
/// once, with nothing.
#[derive(Debug)]
pub struct MemorylessDatabase;

impl MemorylessDatabase {
    pub fn backend(&self) -> (r: &'static str)
        ensures
            r@ == "memoryless"@,
    {
        "memoryless"
    }

    pub fn features(&self) -> (r: Features)
        ensures
            !r.persistent,
            !r.event_expiration,
            !r.full_text_search,
            !r.request_to_vanish,
    {
        Features {
            persistent: false,
            event_expiration: false,
            full_text_search: false,
            request_to_vanish: false,
        }
    }

    /// Takes an event, so that it is broadcast.
    pub fn save_event(&self, event: &Json) -> (r: SaveStatus)
        ensures
            r == SaveStatus::Success,
    {
        SaveStatus::Success
    }

    /// No event is known, one that was taken as little as any other.
    pub fn check_id(&self, event_id: &str) -> (r: EventStatus)
        ensures
            r == EventStatus::NotExistent,
    {
        EventStatus::NotExistent
    }

    /// No event is found by its id.
    pub fn event_by_id(&self, event_id: &str) -> (r: Option<Json>)
        ensures
            r is None,
    {
        None
    }

    /// No event matches a filter.
    pub fn count(&self, filter: &Json) -> (r: usize)
        ensures
            r == 0,
    {
        0
    }

    /// No event matches a filter.
    pub fn query(&self, filter: &Json) -> (r: Vec<Json>)
        ensures
            r@.len() == 0,
    {
        Vec::new()
    }
}

/// Where the bundled relay keeps its events.
#[derive(Debug, Clone, Copy, PartialEq, Eq, Structural)]
pub enum Backend {
    /// In memory, until the process ends.
    Memory,
    /// In an SQLite file.
    Sqlite,
}

/// The backend that a setting names: everything but `memory` means a file.
pub open spec fn backend_of(name: Seq<char>) -> Backend {
    if name == "memory"@ {
        Backend::Memory
    } else {
        Backend::Sqlite
    }
}

/// The backend that a setting names.
pub fn backend_for(name: &str) -> (r: Backend)
    ensures
        r == backend_of(name@),
{
    if crate::text::same(name, "memory") {
        Backend::Memory
    } else {
        Backend::Sqlite
    }
}

/// The storage to open for a relay.
#[derive(Debug, PartialEq)]
pub enum Storage {
    Memory,
    /// The SQLite file at this path.
    File(String),
}

/// The storage that a backend needs; a file needs a path.
pub fn storage_for(backend: Backend, db_path: Option<&str>) -> (r: Result<Storage, String>)
    ensures
        match r {
            Ok(Storage::Memory) => backend == Backend::Memory,
            Ok(Storage::File(path)) => backend == Backend::Sqlite && opt_str(db_path) == Some(
                path@,
            ),
            Err(e) => backend == Backend::Sqlite && db_path is None && e@
                == "sqlite backend requires a db path"@,
        },
{
    match backend {
        Backend::Memory => Ok(Storage::Memory),
        Backend::Sqlite => match db_path {
            Some(path) => Ok(Storage::File(path.to_owned())),
            None => Err("sqlite backend requires a db path".to_owned()),
        },
    }
}

/// The directory to make before a database file is opened: the file's parent,
/// where it has one and that is not there yet.
pub fn directory_to_make(parent: Option<&str>, exists: bool) -> (r: Option<String>)
    ensures
        opt_text(r) == match opt_str(parent) {
            Some(p) => if p.len() > 0 && !exists {
                Some(p)
            } else {
                None
            },
            None => None,
        },
{
    match parent {
        Some(p) => if p.unicode_len() > 0 && !exists {
            Some(p.to_owned())
        } else {
            None
        },
        None => None,
    }
}

/// The first port that is tried where no port is asked for.
pub const EPHEMERAL_BASE: u16 = 8086;

/// How many ports are tried where no port is asked for.
pub const EPHEMERAL_TRIES: u16 = 50;

/// The ports to try, in order: the one that is asked for, or a range where none
/// is (0).
pub open spec fn candidates(port: u16) -> Seq<u16> {
    if port == 0 {
        Seq::new(EPHEMERAL_TRIES as nat, |i: int| (EPHEMERAL_BASE + i) as u16)
    } else {
        seq![port]
    }
}

/// What is said when no candidate could be bound, `error` being the last failure.
pub open spec fn scan_failure(port: u16, error: Seq<char>) -> Seq<char> {
    if port == 0 {
        "no free loopback port for bundled relay in 8086..=8135 (last error: "@ + error + ")"@
    } else {
        "bundled relay failed to bind 127.0.0.1:"@ + decimal_of(port as nat) + ": "@ + error
    }
}

/// What to do next in a search for a port.
#[derive(Debug, PartialEq)]
pub enum ScanStep {
    /// Try this port.
    Try(u16),
    /// Give up, with this message.
    GiveUp(String),
}

/// A search for a port that can be bound: `tried` of the candidates could not.
#[derive(Debug, PartialEq)]
pub struct PortScan {
    port: u16,
    tried: u16,
}

impl PortScan {
    /// The port that is asked for; 0 if any will do.
    pub closed spec fn port(&self) -> u16 {
        self.port
    }

    /// How many of the candidates have been tried in vain.
    pub closed spec fn tried(&self) -> nat {
        self.tried as nat
    }

    /// Whether the candidates are not used up.
    pub open spec fn wf(&self) -> bool {
        self.tried() < candidates(self.port()).len()
    }

    pub fn new(port: u16) -> (r: PortScan)
        ensures
            r.wf(),
            r.port() == port,
            r.tried() == 0,
    {
        PortScan { port, tried: 0 }
    }

    /// The port to try now.
    pub fn candidate(&self) -> (r: u16)
        requires
            self.wf(),
        ensures
            r == candidates(self.port())[self.tried() as int],
    {
        if self.port == 0 {
            EPHEMERAL_BASE + self.tried
        } else {
            self.port
        }
    }

    /// Takes in that the candidate could not be bound, and says what to do next.
    pub fn busy(&mut self, error: &str) -> (r: ScanStep)
        requires
            old(self).wf(),
        ensures
            final(self).port() == old(self).port(),
            match r {
                ScanStep::Try(port) => final(self).wf() && final(self).tried() == old(self).tried()
                    + 1 && port == candidates(old(self).port())[final(self).tried() as int],
                ScanStep::GiveUp(message) => *final(self) == *old(self) && old(self).tried() + 1
                    == candidates(old(self).port()).len() && message@ == scan_failure(
                    old(self).port(),
                    error@,
                ),
            },
    {
        if self.port != 0 {
            return ScanStep::GiveUp(
                "bundled relay failed to bind 127.0.0.1:".to_owned().concat(
                    to_decimal(self.port as u64).as_str(),
                ).concat(": ").concat(error),
            );
        }
        if self.tried + 1 < EPHEMERAL_TRIES {
            self.tried = self.tried + 1;
            return ScanStep::Try(self.candidate());
        }
        ScanStep::GiveUp(
            "no free loopback port for bundled relay in 8086..=8135 (last error: ".to_owned().concat(
                error,
            ).concat(")"),
        )
    }
}

/// A relay is reachable on every port that is tried: none is 0. A port that is
/// asked for is the only one tried.
pub proof fn law_candidates_are_real_ports(port: u16, i: int)
    requires
        0 <= i < candidates(port).len(),
    ensures
        candidates(port)[i] != 0,
        port != 0 ==> candidates(port) == seq![port],
{
}

/// No port is tried twice.
pub proof fn law_no_port_is_tried_twice(port: u16, i: int, j: int)
    requires
        0 <= i < j < candidates(port).len(),
    ensures
        candidates(port)[i] != candidates(port)[j],
{
}

/// The first candidate is the port that is asked for, if any is.
pub proof fn law_first_candidate(port: u16)
    ensures
        candidates(port).len() > 0,
        candidates(port)[0] == if port == 0 {
            EPHEMERAL_BASE
        } else {
            port
        },
{
}

/// A relay that runs on the loopback address.
#[derive(Debug, PartialEq)]
pub struct BundledRelay {
    url: String,
}

impl BundledRelay {
    pub closed spec fn spec_url(&self) -> Seq<char> {
        self.url@
    }

    /// A relay that was bound and answers at `url`.
    pub fn new(url: String) -> (r: BundledRelay)
        ensures
            r.spec_url() == url@,
    {
        BundledRelay { url }
    }

    /// Where the relay answers.
    pub fn url(&self) -> (r: &str)
        ensures
            r@ == self.spec_url(),
    {
        self.url.as_str()
    }
}

/// A database without memory takes every event, so that a relay broadcasts it, and
/// finds none, one that it took as little as any other; it is known by its name and
/// can do nothing else.
pub proof fn law_memoryless_takes_all_and_keeps_none(
    db: MemorylessDatabase,
    event: Json,
    id: &str,
    saved: SaveStatus,
    known: EventStatus,
    found: Option<Json>,
    counted: usize,
    matching: Vec<Json>,
    name: &'static str,
    features: Features,
)
    requires
        call_ensures(MemorylessDatabase::save_event, (&db, &event), saved),
        call_ensures(MemorylessDatabase::check_id, (&db, id), known),
        call_ensures(MemorylessDatabase::event_by_id, (&db, id), found),
        call_ensures(MemorylessDatabase::count, (&db, &event), counted),
        call_ensures(MemorylessDatabase::query, (&db, &event), matching),
        call_ensures(MemorylessDatabase::backend, (&db,), name),
        call_ensures(MemorylessDatabase::features, (&db,), features),
    ensures
        saved == SaveStatus::Success,
        known == EventStatus::NotExistent,
        found is None,
        counted == 0,
        matching@.len() == 0,
        name@ == "memoryless"@,
        features == (Features {
            persistent: false,
            event_expiration: false,
            full_text_search: false,
            request_to_vanish: false,
        }),
{
}

/// Only `memory` keeps no file; a file needs a path, and is opened there.
pub proof fn law_storage_follows_the_backend(
    name: &str,
    backend: Backend,
    db_path: Option<&str>,
    r: Result<Storage, String>,
)
    requires
        call_ensures(backend_for, (name,), backend),
        call_ensures(storage_for, (backend, db_path), r),
    ensures
        backend == Backend::Memory <==> name@ == "memory"@,
        name@ == "memory"@ ==> (r matches Ok(Storage::Memory)),
        name@ != "memory"@ ==> match db_path {
            Some(path) => r matches Ok(Storage::File(at)) && at@ == path@,
            None => r matches Err(e) && e@ == "sqlite backend requires a db path"@,
        },
{
}

/// A directory is made where it is named and missing.
pub proof fn law_missing_directories_are_made(
    parent: Option<&str>,
    exists: bool,
    r: Option<String>,
)
    requires
        call_ensures(directory_to_make, (parent, exists), r),
    ensures
        r is Some <==> !exists && (parent matches Some(p) && p@.len() > 0),
        r matches Some(made) ==> made@ == parent->Some_0@,
{
}

/// A search starts with the port that is asked for, or the first of the range.
pub proof fn law_search_starts_at_the_first_port(port: u16, scan: PortScan, first: u16)
    requires
        call_ensures(PortScan::new, (port,), scan),
        call_ensures(PortScan::candidate, (&scan,), first),
    ensures
        scan.wf(),
        port != 0 ==> first == port,
        port == 0 ==> first == 8086,
{
}

/// A search goes on port by port: while a range is tried, the next port comes after
/// each that is busy, up to the fiftieth. After the last one, or the only one that is
/// asked for, the search is given up with the last error.
pub proof fn law_search_goes_on(
    scan: &mut PortScan,
    error: &str,
    tried: u16,
    next: u16,
    decimal: String,
    r: ScanStep,
)
    requires
        old(scan).wf(),
        call_ensures(PortScan::busy, (scan, error), r),
        call_ensures(PortScan::candidate, (&*old(scan),), tried),
        call_ensures(PortScan::candidate, (&*final(scan),), next),
        call_ensures(to_decimal, (old(scan).port() as u64,), decimal),
    ensures
        final(scan).wf(),
        final(scan).port() == old(scan).port(),
        r matches ScanStep::Try(port) ==> old(scan).port() == 0 && port == next && next == tried + 1
            && next <= 8135,
        old(scan).port() == 0 && tried < 8135 ==> r is Try,
        r matches ScanStep::GiveUp(message) ==> if old(scan).port() == 0 {
            tried == 8135 && message@
                == "no free loopback port for bundled relay in 8086..=8135 (last error: "@ + error@
                + ")"@
        } else {
            message@ == "bundled relay failed to bind 127.0.0.1:"@ + decimal@ + ": "@ + error@
        },
{
}

/// A bundled relay answers where it was bound.
pub proof fn law_bundled_relay_answers_where_it_was_bound(
    url: String,
    relay: BundledRelay,
    r: &str,
)
    requires
        call_ensures(BundledRelay::new, (url,), relay),
        call_ensures(BundledRelay::url, (&relay,), r),
    ensures
        r@ == url@,
{
}

} // verus!
