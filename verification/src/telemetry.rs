//! Telemetry bookkeeping for the node that hosts the engine: the
//! retry-with-cache state machine that resolves the installation identifier,
//! and the assembly of the statistics record a periodic reporter sends. The
//! reporter's I/O — reading and writing the identifier file, the HTTP post —
//! lives outside; this module makes every decision on the plain values that
//! I/O hands back.

use vstd::prelude::*;

verus! {

/// How the node runs; reported with the statistics record.
#[derive(Clone, Copy, Debug, PartialEq, Eq, Structural)]
pub enum Mode {
    Distributed,
    Standalone,
}

/// One statistics record, assembled from what the surrounding system
/// collects about the node.
#[derive(Debug, PartialEq, Eq)]
pub struct StatisticData {
    pub os: String,
    pub version: String,
    pub arch: String,
    pub mode: Mode,
    pub git_commit: String,
    pub nodes: Option<i32>,
    pub uuid: String,
}

/// What reading the well-known installation-identifier file produced: its
/// bytes, a clean not-found, or any other failure.
#[derive(Debug)]
pub enum UuidFileRead {
    Found(Vec<u8>),
    NotFound,
    Failed,
}

/// What the identifier resolution decided: an identifier read back from the
/// file, a freshly generated one the caller should persist, or nothing.
#[derive(Debug, PartialEq, Eq)]
pub enum UuidResolution {
    Existing(String),
    Fresh(String),
    Unavailable,
}

/// The decoding `String::from_utf8_lossy` performs, named: a function of the
/// bytes alone.
pub uninterp spec fn lossy_utf8_of(bytes: Seq<u8>) -> Seq<char>;

/// Relies on String::from_utf8_lossy: decodes the bytes as UTF-8, mapping
/// invalid sequences to the replacement character — a pure function of the
/// bytes, named `lossy_utf8_of` here.
#[verifier::external_body]
fn lossy_string(bytes: &Vec<u8>) -> (r: String)
    ensures
        r@ == lossy_utf8_of(bytes@),
{
    String::from_utf8_lossy(bytes).into_owned()
}

/// Relies on uuid::Uuid::new_v4 and its Display form: a freshly generated
/// random identifier, rendered hyphenated in 36 characters. Nothing more is
/// assumed of the value: it depends on the process's randomness source.
#[verifier::external_body]
fn fresh_uuid_string() -> (r: String)
    ensures
        r@.len() == 36,
{
    uuid::Uuid::new_v4().to_string()
}

/// Decides what the installation identifier is from one read of the
/// well-known file: bytes found are decoded as-is; a clean not-found earns a
/// freshly generated identifier that the caller should persist; any other
/// failure resolves to nothing.
pub fn resolve_uuid(read: UuidFileRead) -> (r: UuidResolution)
    ensures
        match read {
            UuidFileRead::Found(bytes) => r matches UuidResolution::Existing(u) && u@
                == lossy_utf8_of(bytes@),
            UuidFileRead::NotFound => r matches UuidResolution::Fresh(u) && u@.len() == 36,
            UuidFileRead::Failed => r == UuidResolution::Unavailable,
        },
{
    match read {
        UuidFileRead::Found(bytes) => UuidResolution::Existing(lossy_string(&bytes)),
        UuidFileRead::NotFound => UuidResolution::Fresh(fresh_uuid_string()),
        UuidFileRead::Failed => UuidResolution::Unavailable,
    }
}

/// The retry-with-cache state machine behind the installation identifier:
/// once an identifier is known it is cached for good; until then, each
/// failed resolution counts against a fixed retry budget, and past the
/// budget the collector stops asking and reports none.
#[derive(Debug, PartialEq, Eq)]
pub struct UuidState {
    pub cache: Option<String>,
    pub retry: i32,
}

impl UuidState {
    pub fn new() -> (s: Self)
        ensures
            s.cache is None,
            s.retry == 0,
    {
        UuidState { cache: None, retry: 0 }
    }

    /// Whether the caller should attempt a resolution at all: only while
    /// nothing is cached and the retry budget is not exhausted.
    pub fn needs_fetch(&self) -> (r: bool)
        ensures
            r == (self.cache is None && self.retry <= 3),
    {
        self.cache.is_none() && self.retry <= 3
    }

    /// One turn of the state machine, fed the outcome of the resolution the
    /// caller attempted (or None when it attempted none or it failed): a
    /// cached identifier always answers and nothing changes; past the retry
    /// budget the answer is None and nothing changes; a fresh identifier is
    /// cached and answered; a failure burns one retry.
    pub fn get_uuid(&mut self, fetched: Option<String>) -> (r: Option<String>)
        ensures
            (old(self).cache matches Some(u) ==> r == Some(u) && *final(self) == *old(self)),
            old(self).cache is None && old(self).retry > 3 ==> r is None && *final(self) == *old(
                self,
            ),
            old(self).cache is None && old(self).retry <= 3 && fetched is Some ==> {
                &&& r == Some(fetched->0)
                &&& final(self).cache == Some(fetched->0)
                &&& final(self).retry == old(self).retry
            },
            old(self).cache is None && old(self).retry <= 3 && fetched is None ==> {
                &&& r is None
                &&& final(self).cache is None
                &&& final(self).retry == old(self).retry + 1
            },
    {
        if self.cache.is_some() {
            let u = self.cache.as_ref().unwrap().clone();
            return Some(u);
        }
        if self.retry > 3 {
            return None;
        }
        match fetched {
            Some(u) => {
                self.cache = Some(u.clone());
                Some(u)
            },
            None => {
                self.retry = self.retry + 1;
                None
            },
        }
    }
}

/// Assembles one statistics record, exactly from what was collected — but
/// only when an installation identifier is available; without one, no record
/// is built and nothing will be sent.
pub fn build_report(
    uuid: Option<String>,
    os: String,
    version: String,
    arch: String,
    mode: Mode,
    git_commit: String,
    nodes: Option<i32>,
) -> (r: Option<StatisticData>)
    ensures
        (uuid matches Some(u) ==> r matches Some(d) && d.uuid == u && d.os == os && d.version
            == version && d.arch == arch && d.mode == mode && d.git_commit == git_commit && d.nodes
            == nodes),
        uuid is None ==> r is None,
{
    match uuid {
        Some(u) => Some(
            StatisticData { os, version, arch, mode, git_commit, nodes, uuid: u },
        ),
        None => None,
    }
}

} // verus!
