//! Filling in the host association on the objects of a survey.
use vstd::prelude::*;

use crate::document::{no_fields, only, Bson, Document, Node};
use crate::named::put;
use crate::text::{decimal, join3, write_u64};
use crate::utils::host::config::HostGalaxyConfig;

verus! {

/// How many records are sampled to see whether the galaxy catalogs are present.
pub const CATALOG_PROBE_SAMPLE: i64 = 1000;

/// The condition that a field is there.
pub open spec fn present(field: Seq<char>) -> Node {
    Node::Document(only(field, Node::Document(only("$exists"@, Node::Boolean(true)))))
}

fn present_value(field: &str) -> (value: Bson)
    ensures
        value@ == present(field@),
{
    Bson::Document(
        Document::new().with(
            field,
            Bson::Document(Document::new().with("$exists", Bson::Boolean(true))),
        ),
    )
}

/// The stages that look for a record with a shape to associate with. A match in the
/// catalog of diameters is not enough: it counts only with a diameter.
pub open spec fn probe_stages(config: HostGalaxyConfig) -> Node {
    Node::Array(
        seq![
            Node::Document(
                only(
                    "$sample"@,
                    Node::Document(only("size"@, Node::Int64(CATALOG_PROBE_SAMPLE))),
                ),
            ),
            Node::Document(
                only(
                    "$match"@,
                    Node::Document(
                        only(
                            "$or"@,
                            Node::Array(
                                seq![
                                    present("cross_matches."@ + config.ned_catalog@ + ".Diam"@),
                                    present("cross_matches."@ + config.ls_dr10_catalog@),
                                ],
                            ),
                        ),
                    ),
                ),
            ),
            Node::Document(only("$limit"@, Node::Int32(1))),
        ],
    )
}

pub fn probe_catalogs(config: &HostGalaxyConfig) -> (stages: Bson)
    ensures
        stages@ == probe_stages(*config),
{
    let sized = join3("cross_matches.", config.ned_catalog.as_str(), ".Diam");
    let fitted = "cross_matches.".to_string().concat(config.ls_dr10_catalog.as_str());
    let sample = Bson::Document(
        Document::new().with(
            "$sample",
            Bson::Document(Document::new().with("size", Bson::Int64(CATALOG_PROBE_SAMPLE))),
        ),
    );
    let either = Bson::pair(present_value(sized.as_str()), present_value(fitted.as_str()));
    let matching = Bson::Document(
        Document::new().with("$match", Bson::Document(Document::new().with("$or", either))),
    );
    let limit = Bson::Document(Document::new().with("$limit", Bson::Int32(1)));
    let ghost wanted = probe_stages(*config)->Array_0;
    let stages = vec![sample, matching, limit];
    assert(stages@[0]@ == wanted[0]);
    assert(stages@[1]@ == wanted[1]);
    assert(stages@[2]@ == wanted[2]);
    let list = Bson::Array(stages);
    assert(list@->Array_0 =~= wanted);
    list
}

/// The records that are looked at: all of them, or those without an association.
pub fn find_filter(skip_existing: bool) -> (filter: Document)
    ensures
        filter@ == if skip_existing {
            only("host_galaxy"@, Node::Document(only("$exists"@, Node::Boolean(false))))
        } else {
            no_fields()
        },
{
    if skip_existing {
        Document::new().with(
            "host_galaxy",
            Bson::Document(Document::new().with("$exists", Bson::Boolean(false))),
        )
    } else {
        Document::new()
    }
}

/// The fields that are read.
pub fn find_projection() -> (projection: Document)
    ensures
        projection@ == put(
            put(only("_id"@, Node::Int32(1)), "coordinates"@, Node::Int32(1)),
            "cross_matches"@,
            Node::Int32(1),
        ),
{
    Document::new().with("_id", Bson::Int32(1)).with("coordinates", Bson::Int32(1)).with(
        "cross_matches",
        Bson::Int32(1),
    )
}

/// What a worker does after a record.
#[derive(Clone, Copy, Debug, PartialEq, Eq, Structural)]
pub enum Flush {
    /// The batch is kept.
    Keep,
    /// The batch is written and emptied.
    Write,
    /// The batch is emptied without being written.
    Discard,
}

/// A worker's batch.
#[derive(Debug)]
pub struct Backfill {
    pub batch_size: usize,
    pub dry_run: bool,
    /// Updates in the batch.
    pub pending: usize,
    /// Updates in all batches before it.
    pub written: u64,
}

impl Backfill {
    /// A batch is handed on as soon as it is full.
    pub open spec fn wf(&self) -> bool {
        self.pending < self.batch_size
    }

    /// All updates so far.
    pub open spec fn seen(&self) -> int {
        self.written + self.pending
    }

    pub fn new(batch_size: usize, dry_run: bool) -> (backfill: Backfill)
        requires
            batch_size > 0,
        ensures
            backfill.wf(),
            backfill.batch_size == batch_size,
            backfill.dry_run == dry_run,
            backfill.pending == 0,
            backfill.written == 0,
    {
        Backfill { batch_size, dry_run, pending: 0, written: 0 }
    }

    /// Whether one more update fills the batch.
    pub open spec fn fills(&self) -> bool {
        self.pending + 1 >= self.batch_size
    }

    /// What is done with a batch that is handed on.
    pub open spec fn handing_on(&self) -> Flush {
        if self.dry_run {
            Flush::Discard
        } else {
            Flush::Write
        }
    }

    /// Takes note of one more update in the batch, which is handed on when it is full.
    pub fn add_update(&mut self) -> (flush: Flush)
        requires
            old(self).wf(),
            old(self).seen() < u64::MAX,
        ensures
            final(self).wf(),
            *final(self) == old(self).after_update(),
            flush == if old(self).fills() {
                old(self).handing_on()
            } else {
                Flush::Keep
            },
    {
        let pending: usize = self.pending + 1;
        if pending < self.batch_size {
            self.pending = pending;
            return Flush::Keep;
        }
        self.pending = 0;
        self.written = self.written + pending as u64;
        if self.dry_run {
            Flush::Discard
        } else {
            Flush::Write
        }
    }

    /// The state after one more update: it stands in the batch, or the batch was full with
    /// it and is handed on.
    pub open spec fn after_update(&self) -> Backfill {
        Backfill {
            batch_size: self.batch_size,
            dry_run: self.dry_run,
            pending: if self.fills() {
                0
            } else {
                (self.pending + 1) as usize
            },
            written: if self.fills() {
                (self.written + self.pending + 1) as u64
            } else {
                self.written
            },
        }
    }

    /// The state after `n` more updates.
    pub open spec fn after_updates(&self, n: nat) -> Backfill
        decreases n,
    {
        if n == 0 {
            *self
        } else {
            self.after_updates((n - 1) as nat).after_update()
        }
    }

    /// How many updates are handed on, in full batches, while `n` more come.
    pub open spec fn handed_on(&self, n: nat) -> nat
        decreases n,
    {
        if n == 0 {
            0
        } else {
            let before = self.after_updates((n - 1) as nat);
            self.handed_on((n - 1) as nat) + if before.fills() {
                (before.pending + 1) as nat
            } else {
                0
            }
        }
    }

    /// Hands on the last batch, if there is anything in it.
    pub fn finish(&mut self) -> (flush: Flush)
        requires
            old(self).wf(),
            old(self).seen() <= u64::MAX,
        ensures
            final(self).pending == 0,
            final(self).written == old(self).seen(),
            final(self).batch_size == old(self).batch_size,
            final(self).dry_run == old(self).dry_run,
            flush == if old(self).pending == 0 {
                Flush::Keep
            } else {
                old(self).handing_on()
            },
    {
        let pending: usize = self.pending;
        self.pending = 0;
        self.written = self.written + pending as u64;
        if pending == 0 {
            Flush::Keep
        } else if self.dry_run {
            Flush::Discard
        } else {
            Flush::Write
        }
    }
}

/// Every update is handed on once: in a full batch while the updates come, or with what is
/// left at the end. Those handed on are those counted.
pub proof fn every_update_is_handed_on_once(start: Backfill, n: nat)
    requires
        start.wf(),
        start.seen() + n <= u64::MAX,
    ensures
        start.handed_on(n) + start.after_updates(n).pending == start.pending + n,
        start.after_updates(n).written == start.written + start.handed_on(n),
        start.after_updates(n).wf(),
        start.after_updates(n).batch_size == start.batch_size,
        start.after_updates(n).dry_run == start.dry_run,
    decreases n,
{
    if n > 0 {
        every_update_is_handed_on_once(start, (n - 1) as nat);
    }
}

/// The update that sets the association of an object.
pub fn host_update(value: Bson) -> (update: Document)
    ensures
        update@ == only("$set"@, Node::Document(only("host_galaxy"@, value@))),
{
    Document::new().with("$set", Bson::Document(Document::new().with("host_galaxy", value)))
}

/// What is reported at the end.
pub fn summary(dry_run: bool, total: u64) -> (message: String)
    ensures
        message@ == if dry_run {
            "dry run: "@ + decimal(total as nat) + " records would have been updated"@
        } else {
            "updated host_galaxy on "@ + decimal(total as nat) + " records"@
        },
{
    let count = write_u64(total);
    if dry_run {
        join3("dry run: ", count.as_str(), " records would have been updated")
    } else {
        join3("updated host_galaxy on ", count.as_str(), " records")
    }
}

}
