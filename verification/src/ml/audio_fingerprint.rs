//! The audio fingerprint database: known recordings by identifier, and how
//! often the user confirmed each.
use vstd::prelude::*;
use std::collections::HashMap;
use crate::text::owned;

verus! {

broadcast use vstd::std_specs::hash::group_hash_axioms;

/// A recording in the database.
pub struct KnownFingerprint {
    pub id: u64,
    /// Spectral peaks (frequency, time).
    pub peaks: Vec<(u32, u32)>,
    pub title: Option<String>,
    pub artist: Option<String>,
    pub album: Option<String>,
    pub genre: Option<String>,
    pub year: Option<u32>,
    /// How many times the user confirmed this recording.
    pub confirmations: u32,
}

/// Matches audio against the recordings kept with the model.
pub struct AudioFingerprinter {
    model_dir: String,
    fingerprint_db: HashMap<u64, KnownFingerprint>,
}

impl AudioFingerprinter {
    /// The model's directory.
    pub closed spec fn dir(&self) -> Seq<char> {
        self.model_dir@
    }

    /// The recordings by identifier.
    pub closed spec fn known(&self) -> Map<u64, KnownFingerprint> {
        self.fingerprint_db@
    }

    /// The fingerprinter of the model in `model_dir`, with the database
    /// read from its file (empty where there is none).
    pub fn new(model_dir: &str, database: HashMap<u64, KnownFingerprint>) -> (r: Self)
        ensures
            r.dir() == model_dir@,
            r.known() == database@,
    {
        AudioFingerprinter { model_dir: owned(model_dir), fingerprint_db: database }
    }

    /// The model's directory.
    pub fn model_dir(&self) -> (r: &str)
        ensures
            r@ == self.dir(),
    {
        self.model_dir.as_str()
    }

    /// Puts `fp` in the database under its identifier, in place of any
    /// recording there.
    pub fn add_fingerprint(&mut self, fp: KnownFingerprint)
        ensures
            final(self).dir() == old(self).dir(),
            final(self).known() == old(self).known().insert(fp.id, fp),
    {
        let id = fp.id;
        self.fingerprint_db.insert(id, fp);
    }

    /// The recordings, for saving.
    pub fn database(&self) -> (r: &HashMap<u64, KnownFingerprint>)
        ensures
            r@ == self.known(),
    {
        &self.fingerprint_db
    }

    /// Counts one more confirmation of the recording `id`; says whether
    /// the database changed (and so is to be saved). An unknown `id`
    /// changes nothing.
    pub fn confirm_fingerprint(&mut self, id: u64) -> (r: bool)
        requires
            old(self).known().contains_key(id) ==> old(self).known()[id].confirmations < u32::MAX,
        ensures
            r == old(self).known().contains_key(id),
            final(self).dir() == old(self).dir(),
            !r ==> final(self).known() == old(self).known(),
            r ==> final(self).known() == old(self).known().insert(
                id,
                KnownFingerprint {
                    confirmations: (old(self).known()[id].confirmations + 1) as u32,
                    ..old(self).known()[id]
                },
            ),
    {
        match self.fingerprint_db.remove(&id) {
            Some(fp) => {
                let mut fp = fp;
                fp.confirmations = fp.confirmations + 1;
                self.fingerprint_db.insert(id, fp);
                proof {
                    assert(self.fingerprint_db@ =~= old(self).known().insert(
                        id,
                        KnownFingerprint {
                            confirmations: (old(self).known()[id].confirmations + 1) as u32,
                            ..old(self).known()[id]
                        },
                    ));
                }
                true
            },
            None => false,
        }
    }
}

} // verus!
