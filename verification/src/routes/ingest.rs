//! `POST /api/ingest`, the scanner's entry point: reading the multipart
//! fields, checking them, and the messages of a refused ingest.
use vstd::prelude::*;
use crate::text::{contains, has_substring, same_text, trim, trim_seq};

verus! {

/// The extension stored for a scan, by what the `Content-Type` mentions.
pub open spec fn img_ext_spec(content_type: Seq<char>) -> Seq<char> {
    if has_substring(content_type, "png"@) {
        "png"@
    } else if has_substring(content_type, "webp"@) {
        "webp"@
    } else if has_substring(content_type, "gif"@) {
        "gif"@
    } else if has_substring(content_type, "tiff"@) {
        "tiff"@
    } else {
        "jpg"@
    }
}

/// The extension for a scan: PNG, WebP, GIF and TIFF keep theirs,
/// anything else is stored as JPEG.
pub fn img_ext(content_type: &str) -> (res: String)
    ensures
        res@ == img_ext_spec(content_type@),
{
    if contains(content_type, "png") {
        "png".to_owned()
    } else if contains(content_type, "webp") {
        "webp".to_owned()
    } else if contains(content_type, "gif") {
        "gif".to_owned()
    } else if contains(content_type, "tiff") {
        "tiff".to_owned()
    } else {
        "jpg".to_owned()
    }
}

/// The multipart fields the scanner sends.
#[derive(Debug, PartialEq, Eq)]
pub enum IngestField {
    ScryfallId,
    Condition,
    Foil,
    Front,
    Back,
    Other,
}

/// Which field a multipart part carries, by its name.
pub open spec fn field_kind_spec(name: Seq<char>) -> IngestField {
    if name == "scryfall_id"@ {
        IngestField::ScryfallId
    } else if name == "condition"@ {
        IngestField::Condition
    } else if name == "foil"@ {
        IngestField::Foil
    } else if name == "front"@ {
        IngestField::Front
    } else if name == "back"@ {
        IngestField::Back
    } else {
        IngestField::Other
    }
}

/// Which field a multipart part carries, by its name.
pub fn field_kind(name: &str) -> (res: IngestField)
    ensures
        res == field_kind_spec(name@),
{
    if same_text(name, "scryfall_id") {
        IngestField::ScryfallId
    } else if same_text(name, "condition") {
        IngestField::Condition
    } else if same_text(name, "foil") {
        IngestField::Foil
    } else if same_text(name, "front") {
        IngestField::Front
    } else if same_text(name, "back") {
        IngestField::Back
    } else {
        IngestField::Other
    }
}

/// An uploaded scan: its content type and its bytes.
pub struct ScanUpload {
    pub content_type: String,
    pub bytes: Vec<u8>,
}

/// Whether `u` is the upload of `bytes` sent with `content_type`
/// (`image/jpeg` when none was sent).
pub open spec fn holds_upload(u: Option<ScanUpload>, content_type: Option<String>, bytes: Seq<u8>) -> bool {
    match u {
        Some(up) => up.bytes@ == bytes && up.content_type@ == match content_type {
            Some(ct) => ct@,
            None => "image/jpeg"@,
        },
        None => false,
    }
}

/// The fields of an ingest request as read so far.
pub struct IngestFields {
    pub scryfall_id: String,
    pub condition: String,
    pub foil: String,
    pub front: Option<ScanUpload>,
    pub back: Option<ScanUpload>,
}

impl IngestFields {
    /// Before any field: no card, near mint, normal finish, no scans.
    pub fn new() -> (res: IngestFields)
        ensures
            res.scryfall_id@ == Seq::<char>::empty(),
            res.condition@ == "near_mint"@,
            res.foil@ == "normal"@,
            res.front is None,
            res.back is None,
    {
        IngestFields {
            scryfall_id: String::new(),
            condition: "near_mint".to_owned(),
            foil: "normal".to_owned(),
            front: None,
            back: None,
        }
    }

    /// Takes the text of a field: the card's Scryfall ID is trimmed;
    /// condition and finish, trimmed, replace the defaults unless blank.
    /// Other fields are ignored.
    pub fn apply_text(&mut self, field: IngestField, value: &str)
        ensures
            final(self).scryfall_id@ == if field == IngestField::ScryfallId {
                trim_seq(value@)
            } else {
                old(self).scryfall_id@
            },
            final(self).condition@ == if field == IngestField::Condition && trim_seq(value@).len() > 0 {
                trim_seq(value@)
            } else {
                old(self).condition@
            },
            final(self).foil@ == if field == IngestField::Foil && trim_seq(value@).len() > 0 {
                trim_seq(value@)
            } else {
                old(self).foil@
            },
            final(self).front == old(self).front,
            final(self).back == old(self).back,
    {
        match field {
            IngestField::ScryfallId => {
                self.scryfall_id = trim(value);
            },
            IngestField::Condition => {
                let v: String = trim(value);
                if v.as_str().unicode_len() > 0 {
                    self.condition = v;
                }
            },
            IngestField::Foil => {
                let v: String = trim(value);
                if v.as_str().unicode_len() > 0 {
                    self.foil = v;
                }
            },
            _ => {},
        }
    }

    /// Takes an uploaded scan for the front or back: kept only when it is
    /// not empty, with `image/jpeg` as its type when none was sent.
    pub fn apply_file(&mut self, field: IngestField, content_type: Option<String>, bytes: Vec<u8>)
        ensures
            final(self).scryfall_id == old(self).scryfall_id,
            final(self).condition == old(self).condition,
            final(self).foil == old(self).foil,
            (field == IngestField::Front && bytes.len() > 0) ==> holds_upload(
                final(self).front,
                content_type,
                bytes@,
            ),
            !(field == IngestField::Front && bytes.len() > 0) ==> final(self).front == old(self).front,
            (field == IngestField::Back && bytes.len() > 0) ==> holds_upload(
                final(self).back,
                content_type,
                bytes@,
            ),
            !(field == IngestField::Back && bytes.len() > 0) ==> final(self).back == old(self).back,
    {
        if bytes.len() == 0 {
            return;
        }
        let ct: String = match content_type {
            Some(ct) => ct,
            None => "image/jpeg".to_owned(),
        };
        match field {
            IngestField::Front => {
                self.front = Some(ScanUpload { content_type: ct, bytes });
            },
            IngestField::Back => {
                self.back = Some(ScanUpload { content_type: ct, bytes });
            },
            _ => {},
        }
    }
}

/// Why an ingest was refused.
pub enum IngestFailure {
    /// No `scryfall_id` field, or a blank one.
    MissingScryfallId,
    /// The card is not in the card table.
    UnknownCard(String),
    /// Looking the card up failed.
    Database(String),
    /// Every UID of the label pool is in use.
    PoolEmpty,
    /// Reading the label pool failed.
    Pool(String),
    /// Writing the single failed.
    Insert(String),
}

/// The message of a refused ingest.
pub open spec fn failure_message_spec(f: IngestFailure) -> Seq<char> {
    match f {
        IngestFailure::MissingScryfallId => "scryfall_id is required"@,
        IngestFailure::UnknownCard(id) => "scryfall_id not found: "@ + id@,
        IngestFailure::Database(e) => "db error: "@ + e@,
        IngestFailure::PoolEmpty => "UID pool is empty \u{2014} generate more labels first"@,
        IngestFailure::Pool(e) => "uid pool error: "@ + e@,
        IngestFailure::Insert(e) => "insert failed: "@ + e@,
    }
}

/// The message the scanner gets back for a refused ingest.
pub fn failure_message(f: &IngestFailure) -> (res: String)
    ensures
        res@ == failure_message_spec(*f),
{
    match f {
        IngestFailure::MissingScryfallId => "scryfall_id is required".to_owned(),
        IngestFailure::UnknownCard(id) => {
            let mut m: String = "scryfall_id not found: ".to_owned();
            m.append(id.as_str());
            m
        },
        IngestFailure::Database(e) => {
            let mut m: String = "db error: ".to_owned();
            m.append(e.as_str());
            m
        },
        IngestFailure::PoolEmpty => "UID pool is empty \u{2014} generate more labels first".to_owned(),
        IngestFailure::Pool(e) => {
            let mut m: String = "uid pool error: ".to_owned();
            m.append(e.as_str());
            m
        },
        IngestFailure::Insert(e) => {
            let mut m: String = "insert failed: ".to_owned();
            m.append(e.as_str());
            m
        },
    }
}

/// A request without a card is refused before the database is asked.
pub fn check_fields(fields: &IngestFields) -> (res: Result<(), IngestFailure>)
    ensures
        res is Err <==> fields.scryfall_id@.len() == 0,
        res is Err ==> res matches Err(IngestFailure::MissingScryfallId),
{
    if fields.scryfall_id.as_str().unicode_len() == 0 {
        Err(IngestFailure::MissingScryfallId)
    } else {
        Ok(())
    }
}

} // verus!
