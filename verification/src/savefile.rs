//! The atomic-replace save protocol, as a verified plan. The provider
//! snapshots and encodes the store; the plan then orders the
//! filesystem effects: ensure the parent directory, write the whole
//! new content into a sibling temporary file, and only then rename
//! that file onto the destination in one atomic step. A driver
//! performs each effect and reports back whether it succeeded; the
//! first failure abandons the save, and the destination has then never
//! been touched.

use vstd::prelude::*;

use crate::pathops::{parent_dir, tmp_sibling_path};

verus! {

/// How far the protocol has come.
#[derive(Debug)]
pub enum SaveStage {
    /// The parent directory still has to be created.
    EnsureDir,
    /// The payload still has to be written into the temporary file.
    WriteTemp,
    /// The temporary file holds the full payload; rename it onto the
    /// destination.
    Commit,
    /// The destination holds the new content.
    Done,
    /// An effect failed; the save is abandoned.
    Failed,
}

/// One filesystem effect the protocol asks its driver to perform.
pub enum SaveAction {
    /// Create this directory and its missing ancestors. Creating
    /// directories never writes a file.
    CreateDirAll(String),
    /// Replace the content of the first-named file with the second
    /// field's text.
    WriteWholeFile(String, String),
    /// Atomically rename the first-named file onto the second.
    RenameInto(String, String),
    /// Nothing is left to do.
    Stop,
}

/// A planned save: the destination, its sibling temporary file, the
/// full new content, and the stage reached.
pub struct SaveTask {
    pub dest: String,
    pub tmp: String,
    pub payload: String,
    pub dir: Option<String>,
    pub stage: SaveStage,
    /// Whether the driver has reported the payload fully written into
    /// the temporary file.
    pub wrote: Ghost<bool>,
}

/// The effect a task asks for at its current stage.
pub open spec fn action_of(t: SaveTask) -> SaveAction {
    match t.stage {
        SaveStage::EnsureDir => SaveAction::CreateDirAll(t.dir->0),
        SaveStage::WriteTemp => SaveAction::WriteWholeFile(t.tmp, t.payload),
        SaveStage::Commit => SaveAction::RenameInto(t.tmp, t.dest),
        SaveStage::Done => SaveAction::Stop,
        SaveStage::Failed => SaveAction::Stop,
    }
}

impl SaveTask {
    /// The temporary file is the destination's `.tmp` sibling, a
    /// pending directory stage has a directory to create, and the
    /// commit is never pending or done before the payload was written.
    pub open spec fn wf(self) -> bool {
        &&& self.tmp@ == self.dest@ + ".tmp"@
        &&& (self.stage is EnsureDir ==> self.dir is Some)
        &&& (self.stage is Commit || self.stage is Done ==> self.wrote@)
    }

    /// Plan a save of `payload` to `dest`. The plan starts before any
    /// effect: at the directory stage when the destination names one,
    /// else directly at the write of the temporary file.
    pub fn new(dest: &str, payload: String) -> (t: SaveTask)
        ensures
            t.wf(),
            t.dest@ == dest@,
            t.payload == payload,
            t.tmp@ != t.dest@,
            t.stage is EnsureDir || t.stage is WriteTemp,
            !t.wrote@,
    {
        let tmp = tmp_sibling_path(dest);
        match parent_dir(dest) {
            Some(d) => SaveTask {
                dest: dest.to_owned(),
                tmp,
                payload,
                dir: Some(d),
                stage: SaveStage::EnsureDir,
                wrote: Ghost(false),
            },
            None => SaveTask {
                dest: dest.to_owned(),
                tmp,
                payload,
                dir: None,
                stage: SaveStage::WriteTemp,
                wrote: Ghost(false),
            },
        }
    }

    /// The effect to perform now. Only the commit stage ever names the
    /// destination; the only file written before it is the temporary
    /// sibling.
    pub fn current_action(&self) -> (a: SaveAction)
        requires
            self.wf(),
        ensures
            a == action_of(*self),
            (a matches SaveAction::WriteWholeFile(p, c) ==> p == self.tmp && c == self.payload),
            (a matches SaveAction::RenameInto(f, d) ==> self.stage is Commit && f == self.tmp
                && d == self.dest),
    {
        match &self.stage {
            SaveStage::EnsureDir => match &self.dir {
                Some(d) => SaveAction::CreateDirAll(d.clone()),
                None => vstd::pervasive::unreached(),
            },
            SaveStage::WriteTemp => SaveAction::WriteWholeFile(
                self.tmp.clone(),
                self.payload.clone(),
            ),
            SaveStage::Commit => SaveAction::RenameInto(self.tmp.clone(), self.dest.clone()),
            SaveStage::Done => SaveAction::Stop,
            SaveStage::Failed => SaveAction::Stop,
        }
    }

    /// Record the outcome of the effect just performed: success moves
    /// the protocol one stage forward, the first failure abandons it,
    /// and a finished task stays where it is.
    pub fn advance(&mut self, succeeded: bool)
        requires
            old(self).wf(),
        ensures
            final(self).wf(),
            final(self).dest == old(self).dest,
            final(self).tmp == old(self).tmp,
            final(self).payload == old(self).payload,
            final(self).wrote@ == (old(self).wrote@
                || (old(self).stage is WriteTemp && succeeded)),
            old(self).stage is Done ==> final(self).stage is Done,
            old(self).stage is Failed ==> final(self).stage is Failed,
            !succeeded && !(old(self).stage is Done) && !(old(self).stage is Failed)
                ==> final(self).stage is Failed,
            succeeded ==> match old(self).stage {
                SaveStage::EnsureDir => final(self).stage is WriteTemp,
                SaveStage::WriteTemp => final(self).stage is Commit,
                SaveStage::Commit => final(self).stage is Done,
                SaveStage::Done => final(self).stage is Done,
                SaveStage::Failed => final(self).stage is Failed,
            },
    {
        match &self.stage {
            SaveStage::EnsureDir => {
                self.stage = if succeeded {
                    SaveStage::WriteTemp
                } else {
                    SaveStage::Failed
                };
            },
            SaveStage::WriteTemp => {
                if succeeded {
                    self.stage = SaveStage::Commit;
                    self.wrote = Ghost(true);
                } else {
                    self.stage = SaveStage::Failed;
                }
            },
            SaveStage::Commit => {
                self.stage = if succeeded {
                    SaveStage::Done
                } else {
                    SaveStage::Failed
                };
            },
            SaveStage::Done => {},
            SaveStage::Failed => {},
        }
    }

    /// Whether the protocol has run out of effects to perform.
    pub fn finished(&self) -> (r: bool)
        ensures
            r == (self.stage is Done || self.stage is Failed),
    {
        match &self.stage {
            SaveStage::Done => true,
            SaveStage::Failed => true,
            _ => false,
        }
    }

    /// Whether the destination was atomically replaced with the new
    /// content.
    pub fn committed(&self) -> (r: bool)
        ensures
            r == (self.stage is Done),
    {
        match &self.stage {
            SaveStage::Done => true,
            _ => false,
        }
    }
}

/// Law: the rename comes only after the write. A well-formed task asks
/// for the rename only once the driver has reported the full payload
/// written into the temporary file, so the destination is only ever
/// replaced by content that was completely written elsewhere first.
pub proof fn lemma_rename_only_after_write(t: SaveTask)
    requires
        t.wf(),
        action_of(t) is RenameInto,
    ensures
        t.wrote@,
{
}

/// Law: a save interrupted before its commit spares the destination.
/// Until the task reaches the commit stage, the effect it asks for is
/// never the rename, and any file it writes is the sibling temporary
/// file, whose name differs from the destination's. The destination's
/// previous content therefore stays intact under any failure or
/// interruption before the single atomic rename.
pub proof fn lemma_interrupted_save_spares_destination(t: SaveTask)
    requires
        t.wf(),
        !(t.stage is Commit),
    ensures
        !(action_of(t) is RenameInto),
        (action_of(t) matches SaveAction::WriteWholeFile(p, _c) ==> p@ != t.dest@),
{
    reveal_strlit(".tmp");
    assert(t.tmp@.len() == t.dest@.len() + 4);
}

} // verus!
