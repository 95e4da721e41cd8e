use vstd::prelude::*;
use crate::error::BootError;
use crate::variables::{
    enroll_key, key_name_spec, vendor_of_name, SecureKey, VariableWrite, VendorScope,
    AUTHENTICATED_WRITE_ATTRIBUTES,
};

verus! {

/// Which key failed to enroll, and why.
#[derive(Debug, Clone, Copy, PartialEq, Eq, Structural)]
pub struct EnrollError {
    pub key: SecureKey,
    pub cause: BootError,
}

/// Where enrollment stands.
#[derive(Debug, Clone, Copy, PartialEq, Eq, Structural)]
pub enum EnrollStage {
    /// Waiting for the payload of this key (downloaded or compiled in).
    Obtain(SecureKey),
    /// Every payload is held; waiting for the outcome of this key's write.
    Writing(SecureKey),
    /// Every key was written.
    Enrolled,
    /// Enrollment stopped at a failure; nothing more is attempted.
    Failed(EnrollError),
}

/// What the caller does next for enrollment.
#[derive(Debug)]
pub enum EnrollAction {
    /// Obtain the payload of this key and report it with `on_payload`.
    Obtain(SecureKey),
    /// Perform this write and report its outcome with `on_written`.
    Write(VariableWrite),
    /// Enrollment is over, with this outcome.
    Finished(Result<(), EnrollError>),
}

/// The key handled after `key`: PK, then KEK, then db.
pub open spec fn next_key(key: SecureKey) -> Option<SecureKey> {
    match key {
        SecureKey::Pk => Some(SecureKey::Kek),
        SecureKey::Kek => Some(SecureKey::Db),
        SecureKey::Db => None,
    }
}

/// The namespace of a key: PK and KEK are global, db belongs to the image security
/// database.
pub open spec fn vendor_of_key(key: SecureKey) -> VendorScope {
    match key {
        SecureKey::Db => VendorScope::ImageSecurityDatabase,
        _ => VendorScope::GlobalVariable,
    }
}

/// The stage after the payload of the awaited key arrived or failed to. Payloads are
/// obtained in the order PK, KEK, db; only once the db payload is held does writing
/// begin, with PK.
pub open spec fn stage_after_payload(s: EnrollStage, payload: Result<Seq<u8>, BootError>) -> EnrollStage {
    match s {
        EnrollStage::Obtain(key) => match payload {
            Ok(_) => match next_key(key) {
                Some(k) => EnrollStage::Obtain(k),
                None => EnrollStage::Writing(SecureKey::Pk),
            },
            Err(cause) => EnrollStage::Failed(EnrollError { key, cause }),
        },
        _ => s,
    }
}

/// The stage after the write of the current key succeeded or failed. Writes go in the
/// order PK, KEK, db; the first failure is final.
pub open spec fn stage_after_write(s: EnrollStage, outcome: Result<(), BootError>) -> EnrollStage {
    match s {
        EnrollStage::Writing(key) => match outcome {
            Ok(_) => match next_key(key) {
                Some(k) => EnrollStage::Writing(k),
                None => EnrollStage::Enrolled,
            },
            Err(cause) => EnrollStage::Failed(EnrollError { key, cause }),
        },
        _ => s,
    }
}

/// `w` is the authenticated write of `data` under `key`.
pub open spec fn is_key_write(w: VariableWrite, key: SecureKey, data: Seq<u8>) -> bool {
    &&& w.name@ == key_name_spec(key)
    &&& w.vendor == vendor_of_key(key)
    &&& w.attributes == AUTHENTICATED_WRITE_ATTRIBUTES
    &&& w.data@ == data
}

/// The payload a report carries, as a model.
pub open spec fn payload_view(payload: Result<Vec<u8>, BootError>) -> Result<Seq<u8>, BootError> {
    match payload {
        Ok(d) => Ok(d@),
        Err(e) => Err(e),
    }
}

/// An enrollment as a model: its stage and the payloads obtained so far.
pub struct EnrollerView {
    pub stage: EnrollStage,
    pub pk: Seq<u8>,
    pub kek: Seq<u8>,
    pub db: Seq<u8>,
}

/// The payload held for `key`.
pub open spec fn payload_of(v: EnrollerView, key: SecureKey) -> Seq<u8> {
    match key {
        SecureKey::Pk => v.pk,
        SecureKey::Kek => v.kek,
        SecureKey::Db => v.db,
    }
}

/// `a` is what the stage of `v` asks for: the awaited payload, the write of the current
/// key with its held payload, or the end of enrollment.
pub open spec fn action_matches(v: EnrollerView, a: EnrollAction) -> bool {
    match v.stage {
        EnrollStage::Obtain(k) => a == EnrollAction::Obtain(k),
        EnrollStage::Writing(k) => a matches EnrollAction::Write(w) && is_key_write(
            w,
            k,
            payload_of(v, k),
        ),
        EnrollStage::Enrolled => a == EnrollAction::Finished(Ok(())),
        EnrollStage::Failed(e) => a == EnrollAction::Finished(Err(e)),
    }
}

/// The stages after the PK, KEK and db payload reports, in turn.
pub open spec fn stages_after_payloads(
    pk: Result<Seq<u8>, BootError>,
    kek: Result<Seq<u8>, BootError>,
    db: Result<Seq<u8>, BootError>,
) -> (EnrollStage, EnrollStage, EnrollStage) {
    let s1 = stage_after_payload(EnrollStage::Obtain(SecureKey::Pk), pk);
    let s2 = stage_after_payload(s1, kek);
    let s3 = stage_after_payload(s2, db);
    (s1, s2, s3)
}

/// All three payloads are obtained before the first write. If any of them cannot be
/// obtained, enrollment fails naming the first key that failed, and no stage along the
/// way asks for a write, so nothing is written; when the KEK fails, db is never asked
/// for. When all three arrive, writing begins with PK.
pub proof fn lemma_failed_payload_writes_nothing(
    pk: Result<Seq<u8>, BootError>,
    kek: Result<Seq<u8>, BootError>,
    db: Result<Seq<u8>, BootError>,
)
    ensures
        ({
            let (s1, s2, s3) = stages_after_payloads(pk, kek, db);
            &&& (pk is Err || kek is Err || db is Err) ==> !(s1 is Writing) && !(s2 is Writing)
                && !(s3 is Writing)
            &&& pk matches Err(c) ==> s3 == EnrollStage::Failed(
                EnrollError { key: SecureKey::Pk, cause: c },
            )
            &&& (pk is Ok && kek is Err) ==> s2 == EnrollStage::Failed(
                EnrollError { key: SecureKey::Kek, cause: kek->Err_0 },
            ) && s3 == s2
            &&& (pk is Ok && kek is Ok && db is Err) ==> s3 == EnrollStage::Failed(
                EnrollError { key: SecureKey::Db, cause: db->Err_0 },
            )
            &&& (pk is Ok && kek is Ok && db is Ok) ==> s3 == EnrollStage::Writing(SecureKey::Pk)
        }),
{
}

/// Writing is reached only from the db payload, and a write leads on only after the
/// previous write succeeded, in the order PK, KEK, db. A failure is final: no later
/// report moves enrollment on.
pub proof fn lemma_enrollment_order(
    s: EnrollStage,
    payload: Result<Seq<u8>, BootError>,
    outcome: Result<(), BootError>,
)
    ensures
        s is Obtain ==> (stage_after_payload(s, payload) is Writing <==> (s == EnrollStage::Obtain(
            SecureKey::Db,
        ) && payload is Ok)),
        s is Obtain && stage_after_payload(s, payload) is Writing ==> stage_after_payload(
            s,
            payload,
        ) == EnrollStage::Writing(SecureKey::Pk),
        s is Writing ==> (stage_after_write(s, outcome) == EnrollStage::Writing(SecureKey::Kek)
            <==> (s == EnrollStage::Writing(SecureKey::Pk) && outcome is Ok)),
        s is Writing ==> (stage_after_write(s, outcome) == EnrollStage::Writing(SecureKey::Db)
            <==> (s == EnrollStage::Writing(SecureKey::Kek) && outcome is Ok)),
        s is Writing ==> (stage_after_write(s, outcome) == EnrollStage::Enrolled <==> (s
            == EnrollStage::Writing(SecureKey::Db) && outcome is Ok)),
        s is Failed ==> stage_after_payload(s, payload) == s && stage_after_write(s, outcome) == s,
{
}

/// The enrollment of the Secure Boot keys, driven by the caller's reports.
pub struct KeyEnroller {
    stage: EnrollStage,
    pk: Vec<u8>,
    kek: Vec<u8>,
    db: Vec<u8>,
}

impl View for KeyEnroller {
    type V = EnrollerView;

    closed spec fn view(&self) -> EnrollerView {
        EnrollerView { stage: self.stage, pk: self.pk@, kek: self.kek@, db: self.db@ }
    }
}

impl KeyEnroller {
    /// Begins enrollment: the PK payload is needed first.
    pub fn start() -> (r: (KeyEnroller, EnrollAction))
        ensures
            r.0@.stage == EnrollStage::Obtain(SecureKey::Pk),
            action_matches(r.0@, r.1),
    {
        (
            KeyEnroller {
                stage: EnrollStage::Obtain(SecureKey::Pk),
                pk: Vec::new(),
                kek: Vec::new(),
                db: Vec::new(),
            },
            EnrollAction::Obtain(SecureKey::Pk),
        )
    }

    /// Where enrollment stands.
    pub fn stage(&self) -> (r: EnrollStage)
        ensures
            r == self@.stage,
    {
        self.stage
    }

    fn payload(&self, key: SecureKey) -> (r: &Vec<u8>)
        ensures
            r@ == payload_of(self@, key),
    {
        match key {
            SecureKey::Pk => &self.pk,
            SecureKey::Kek => &self.kek,
            SecureKey::Db => &self.db,
        }
    }

    /// The authenticated write of the held payload of `key`.
    fn write_of(&self, key: SecureKey) -> (r: VariableWrite)
        ensures
            is_key_write(r, key, payload_of(self@, key)),
    {
        assert(vendor_of_name(key_name_spec(key)) == Some(vendor_of_key(key)));
        match enroll_key(key.name(), self.payload(key).as_slice()) {
            Ok(w) => w,
            Err(_) => {
                // A key's own name always has a namespace.
                assert(false);
                VariableWrite {
                    name: String::new(),
                    vendor: VendorScope::GlobalVariable,
                    attributes: 0,
                    data: Vec::new(),
                }
            },
        }
    }

    /// Takes the payload of the awaited key and keeps it: the next payload is needed, or,
    /// once the db payload is held, the PK write. A failure to obtain a payload ends
    /// enrollment naming that key, before anything was written.
    pub fn on_payload(&mut self, payload: Result<Vec<u8>, BootError>) -> (r: EnrollAction)
        requires
            old(self)@.stage is Obtain,
        ensures
            final(self)@.stage == stage_after_payload(old(self)@.stage, payload_view(payload)),
            match payload {
                Ok(d) => payload_of(final(self)@, old(self)@.stage->Obtain_0) == d@,
                Err(_) => payload_of(final(self)@, old(self)@.stage->Obtain_0) == payload_of(
                    old(self)@,
                    old(self)@.stage->Obtain_0,
                ),
            },
            forall|k: SecureKey|
                k != old(self)@.stage->Obtain_0 ==> payload_of(final(self)@, k) == payload_of(
                    old(self)@,
                    k,
                ),
            action_matches(final(self)@, r),
    {
        let key = match self.stage {
            EnrollStage::Obtain(k) => k,
            _ => SecureKey::Pk,
        };
        match payload {
            Ok(data) => {
                match key {
                    SecureKey::Pk => {
                        self.pk = data;
                        self.stage = EnrollStage::Obtain(SecureKey::Kek);
                        EnrollAction::Obtain(SecureKey::Kek)
                    },
                    SecureKey::Kek => {
                        self.kek = data;
                        self.stage = EnrollStage::Obtain(SecureKey::Db);
                        EnrollAction::Obtain(SecureKey::Db)
                    },
                    SecureKey::Db => {
                        self.db = data;
                        self.stage = EnrollStage::Writing(SecureKey::Pk);
                        EnrollAction::Write(self.write_of(SecureKey::Pk))
                    },
                }
            },
            Err(cause) => {
                let e = EnrollError { key, cause };
                self.stage = EnrollStage::Failed(e);
                EnrollAction::Finished(Err(e))
            },
        }
    }

    /// Takes the outcome of the current key's write: the next key's write, or the end of
    /// enrollment. A failed write ends enrollment naming that key; no later key is
    /// written.
    pub fn on_written(&mut self, outcome: Result<(), BootError>) -> (r: EnrollAction)
        requires
            old(self)@.stage is Writing,
        ensures
            final(self)@.stage == stage_after_write(old(self)@.stage, outcome),
            forall|k: SecureKey| payload_of(final(self)@, k) == payload_of(old(self)@, k),
            action_matches(final(self)@, r),
    {
        let key = match self.stage {
            EnrollStage::Writing(k) => k,
            _ => SecureKey::Pk,
        };
        match outcome {
            Ok(()) => match key {
                SecureKey::Pk => {
                    self.stage = EnrollStage::Writing(SecureKey::Kek);
                    EnrollAction::Write(self.write_of(SecureKey::Kek))
                },
                SecureKey::Kek => {
                    self.stage = EnrollStage::Writing(SecureKey::Db);
                    EnrollAction::Write(self.write_of(SecureKey::Db))
                },
                SecureKey::Db => {
                    self.stage = EnrollStage::Enrolled;
                    EnrollAction::Finished(Ok(()))
                },
            },
            Err(cause) => {
                let e = EnrollError { key, cause };
                self.stage = EnrollStage::Failed(e);
                EnrollAction::Finished(Err(e))
            },
        }
    }
}

} // verus!
