//! Contact records and their photos.
//!
//! The address book hands raw photo blobs whose first byte tags an
//! inline image; a JPEG or PNG behind that tag is re-encoded as a
//! data URL for the caller.  Contact rows are assembled here from
//! plain column values; row counts are aggregated by return value,
//! not by shared counters.

use vstd::prelude::*;
use vstd::slice::slice_subrange;

verus! {

/// A contact's photos, each as a data URL where the archive held a
/// real inline image.
#[derive(Debug, Clone, PartialEq, Eq)]
pub struct ContactPhoto {
    pub full_photo: Option<String>,
    pub thumbnail: Option<String>,
    pub legacy_photo: Option<String>,
}

/// What the standard base64 alphabet encodes the bytes to.
pub uninterp spec fn base64_of(bytes: Seq<u8>) -> Seq<char>;

/// Relies on base64's standard-alphabet engine (`STANDARD.encode`):
/// the result depends on the bytes alone, four characters for every
/// started group of three bytes, padded.
#[verifier::external_body]
fn base64_encode(data: &[u8]) -> (r: String)
    ensures
        r@ == base64_of(data@),
        r@.len() == 4 * ((data@.len() + 2) / 3),
{
    base64::Engine::encode(&base64::engine::general_purpose::STANDARD, data)
}

/// An inline JPEG starts FF D8 FF.
pub open spec fn spec_is_jpeg(d: Seq<u8>) -> bool {
    d.len() >= 3 && d[0] == 0xffu8 && d[1] == 0xd8u8 && d[2] == 0xffu8
}

/// An inline PNG starts 89 50 4E.
pub open spec fn spec_is_png(d: Seq<u8>) -> bool {
    d.len() >= 3 && d[0] == 0x89u8 && d[1] == 0x50u8 && d[2] == 0x4eu8
}

/// A photo blob carries a real image when its tag byte is 1 and the
/// bytes behind it start like a JPEG or a PNG.
pub open spec fn spec_is_valid_image_data(data: Seq<u8>) -> bool {
    &&& data.len() >= 4
    &&& data[0] == 1u8
    &&& (spec_is_jpeg(data.subrange(1, data.len() as int)) || spec_is_png(
        data.subrange(1, data.len() as int),
    ))
}

/// The data URL a photo blob becomes: its media type from the magic
/// bytes behind the tag byte, then the image base64-encoded.  A blob
/// that is too short or no known image becomes nothing.
pub open spec fn spec_prepared_image(data: Seq<u8>) -> Option<Seq<char>> {
    if data.len() < 4 {
        None
    } else {
        let img = data.subrange(1, data.len() as int);
        if spec_is_jpeg(img) {
            Some("data:image/jpeg;base64,"@ + base64_of(img))
        } else if spec_is_png(img) {
            Some("data:image/png;base64,"@ + base64_of(img))
        } else {
            None
        }
    }
}

impl ContactPhoto {
    /// Whether a photo blob holds a real inline image rather than a
    /// reference.
    pub fn is_valid_image_data(data: &[u8]) -> (r: bool)
        ensures
            r == spec_is_valid_image_data(data@),
    {
        if data.len() < 4 {
            return false;
        }
        if data[0] != 1 {
            return false;
        }
        let img = slice_subrange(data, 1, data.len());
        if img[0] == 0xff && img[1] == 0xd8 && img[2] == 0xff {
            return true;
        }
        if img[0] == 0x89 && img[1] == 0x50 && img[2] == 0x4e {
            return true;
        }
        false
    }

    /// Encodes a photo blob as a data URL, where it holds a JPEG or a
    /// PNG behind its tag byte.
    pub fn prepare_image_data(data: &[u8]) -> (r: Option<String>)
        ensures
            match r {
                Some(s) => spec_prepared_image(data@) == Some(s@),
                None => spec_prepared_image(data@) is None,
            },
    {
        if data.len() < 4 {
            return None;
        }
        let img = slice_subrange(data, 1, data.len());
        if img[0] == 0xff && img[1] == 0xd8 && img[2] == 0xff {
            let mut s = String::from_str("data:image/jpeg;base64,");
            let b = base64_encode(img);
            s.append(b.as_str());
            Some(s)
        } else if img[0] == 0x89 && img[1] == 0x50 && img[2] == 0x4e {
            let mut s = String::from_str("data:image/png;base64,");
            let b = base64_encode(img);
            s.append(b.as_str());
            Some(s)
        } else {
            None
        }
    }
}

/// One contact row of the address book, as plain column values.
#[derive(Debug, Clone, PartialEq, Eq)]
pub struct ContactRow {
    pub contact_id: i64,
    pub first_name: Option<String>,
    pub last_name: Option<String>,
    pub nickname: Option<String>,
    pub organization: Option<String>,
    pub full_photo: Option<Vec<u8>>,
    pub thumbnail: Option<Vec<u8>>,
}

/// One contact, as a caller sees it.
#[derive(Debug, Clone, PartialEq, Eq)]
pub struct ContactInfo {
    pub contact_id: i64,
    pub first_name: Option<String>,
    pub last_name: Option<String>,
    pub nickname: Option<String>,
    pub organization: Option<String>,
    pub photo: Option<ContactPhoto>,
    pub emails: Vec<String>,
    pub phones: Vec<String>,
}

/// All contacts read out of the address book.
#[derive(Debug, Clone, PartialEq, Eq)]
pub struct ContactResponse {
    pub contacts: Vec<ContactInfo>,
}

/// Assembles a contact from its row.  A photo travels only where the
/// row has a full-photo blob and that blob or the thumbnail is a real
/// image; each part that is valid is encoded, the legacy slot stays
/// empty here, and addresses and numbers start empty — they arrive on
/// their own rows.
pub fn contact_from_row(row: ContactRow) -> (r: ContactInfo)
    ensures
        r.contact_id == row.contact_id,
        r.first_name == row.first_name,
        r.last_name == row.last_name,
        r.nickname == row.nickname,
        r.organization == row.organization,
        r.emails@.len() == 0,
        r.phones@.len() == 0,
        match row.full_photo {
            None => r.photo is None,
            Some(f) => {
                let valid_full = spec_is_valid_image_data(f@);
                let valid_thumb = match row.thumbnail {
                    Some(t) => spec_is_valid_image_data(t@),
                    None => false,
                };
                if valid_full || valid_thumb {
                    match r.photo {
                        Some(p) => {
                            &&& (valid_full ==> spec_prepared_image(f@)
                                == crate::contacts::opt_str_view(p.full_photo))
                            &&& (!valid_full ==> p.full_photo is None)
                            &&& (valid_thumb ==> match row.thumbnail {
                                Some(t) => spec_prepared_image(t@) == crate::contacts::opt_str_view(
                                    p.thumbnail,
                                ),
                                None => false,
                            })
                            &&& (!valid_thumb ==> p.thumbnail is None)
                            &&& p.legacy_photo is None
                        },
                        None => false,
                    }
                } else {
                    r.photo is None
                }
            },
        },
{
    let photo: Option<ContactPhoto> = match &row.full_photo {
        None => None,
        Some(f) => {
            let valid_full = ContactPhoto::is_valid_image_data(f.as_slice());
            let valid_thumb = match &row.thumbnail {
                Some(t) => ContactPhoto::is_valid_image_data(t.as_slice()),
                None => false,
            };
            if valid_full || valid_thumb {
                let full_photo = if valid_full {
                    ContactPhoto::prepare_image_data(f.as_slice())
                } else {
                    None
                };
                let thumbnail = if valid_thumb {
                    match &row.thumbnail {
                        Some(t) => ContactPhoto::prepare_image_data(t.as_slice()),
                        None => None,
                    }
                } else {
                    None
                };
                Some(ContactPhoto { full_photo, thumbnail, legacy_photo: None })
            } else {
                None
            }
        },
    };
    ContactInfo {
        contact_id: row.contact_id,
        first_name: row.first_name,
        last_name: row.last_name,
        nickname: row.nickname,
        organization: row.organization,
        photo,
        emails: Vec::new(),
        phones: Vec::new(),
    }
}

pub open spec fn opt_str_view(v: Option<String>) -> Option<Seq<char>> {
    match v {
        Some(s) => Some(s@),
        None => None,
    }
}

/// How many contact, address and number rows an import touched,
/// aggregated by return value.
#[derive(Debug, Clone, Copy, PartialEq, Eq, Structural)]
pub struct ImportCounts {
    pub contacts: u64,
    pub emails: u64,
    pub phones: u64,
}

impl ImportCounts {
    /// No rows seen yet.
    pub fn new() -> (r: ImportCounts)
        ensures
            r.contacts == 0 && r.emails == 0 && r.phones == 0,
    {
        ImportCounts { contacts: 0, emails: 0, phones: 0 }
    }

    /// One more contact row.
    pub fn record_contact(self) -> (r: ImportCounts)
        requires
            self.contacts < u64::MAX,
        ensures
            r == (ImportCounts { contacts: (self.contacts + 1) as u64, ..self }),
    {
        ImportCounts { contacts: self.contacts + 1, ..self }
    }

    /// One more address row.
    pub fn record_email(self) -> (r: ImportCounts)
        requires
            self.emails < u64::MAX,
        ensures
            r == (ImportCounts { emails: (self.emails + 1) as u64, ..self }),
    {
        ImportCounts { emails: self.emails + 1, ..self }
    }

    /// One more number row.
    pub fn record_phone(self) -> (r: ImportCounts)
        requires
            self.phones < u64::MAX,
        ensures
            r == (ImportCounts { phones: (self.phones + 1) as u64, ..self }),
    {
        ImportCounts { phones: self.phones + 1, ..self }
    }
}

} // verus!
