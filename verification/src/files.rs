//! Image file storage: upload validation, metadata editing, and retrieval.

use vstd::prelude::*;
use vstd::slice::slice_to_vec;

use crate::clock::now_timestamp;
use crate::errors::ApiError;
use crate::store::{
    file_ids, file_index, has_file, ids_well_formed, lemma_file_index_unique, FileRow, Store,
};

verus! {

/// One stored file as reported back to the uploader.
pub struct UploadedFile {
    pub id: i32,
    pub filename: String,
}

/// Everything one upload call stored.
pub struct UploadResponse {
    pub files: Vec<UploadedFile>,
}

/// A partial file-metadata edit: absent fields keep the stored values.
pub struct EditFile {
    pub filename: Option<String>,
    pub ocr: Option<String>,
}

/// Whether infer recognizes the bytes as an image. A pure function of the
/// bytes; the magic-number tables are relied upon, not restated.
pub uninterp spec fn infer_is_image(b: Seq<u8>) -> bool;

/// Relies on infer's `is_image`: magic-number detection over the buffer, a
/// deterministic function of the bytes.
#[verifier::external_body]
fn bytes_are_image(b: &[u8]) -> (r: bool)
    ensures
        r == infer_is_image(b@),
{
    infer::is_image(b)
}

/// What sanitize-filename leaves of a name under its POSIX rules with
/// truncation and empty replacement. A pure function of the name; the rules
/// themselves are relied upon, not restated.
pub uninterp spec fn sanitized_filename(s: Seq<char>) -> Seq<char>;

/// Relies on sanitize-filename's `sanitize_with_options`, with the options
/// pinned (POSIX rules, truncate, empty replacement) so the result is a
/// deterministic function of the name on every platform.
#[verifier::external_body]
fn sanitize_name(s: &str) -> (r: String)
    ensures
        r@ == sanitized_filename(s@),
{
    sanitize_filename::sanitize_with_options(
        s,
        sanitize_filename::Options { windows: false, truncate: true, replacement: "" },
    )
}

/// The file row an edit produces: present fields replace, absent keep; a
/// given OCR text always overwrites.
pub open spec fn edited_file(f: FileRow, e: EditFile) -> FileRow {
    FileRow {
        id: f.id,
        user_id: f.user_id,
        created_at: f.created_at,
        filename: match e.filename {
            Some(n) => n,
            None => f.filename,
        },
        data: f.data,
        ocr: match e.ocr {
            Some(t) => Some(t),
            None => f.ocr,
        },
    }
}

impl Store {
    /// Stores one uploaded image under the sanitized form of its client-
    /// supplied name. Bytes that are not an image are a BadRequest, and
    /// nothing is stored.
    pub fn store_image(&mut self, user_id: i32, filename: &str, data: Vec<u8>, now: i64) -> (r:
        Result<UploadedFile, ApiError>)
        requires
            old(self).wf(),
            old(self).next_file_id < i32::MAX,
        ensures
            final(self).wf(),
            *final(self) == (Store {
                files: final(self).files,
                next_file_id: final(self).next_file_id,
                ..*old(self)
            }),
            match r {
                Ok(f) => {
                    &&& infer_is_image(data@)
                    &&& f.id == old(self).next_file_id
                    &&& f.filename@ == sanitized_filename(filename@)
                    &&& final(self).files@.len() == old(self).files@.len() + 1
                    &&& final(self).files@.drop_last() == old(self).files@
                    &&& ({
                        let row = final(self).files@.last();
                        &&& row.id == old(self).next_file_id
                        &&& row.user_id == user_id
                        &&& row.created_at == now
                        &&& row.filename@ == sanitized_filename(filename@)
                        &&& row.data == data
                        &&& row.ocr is None
                    })
                    &&& final(self).next_file_id as int == old(self).next_file_id + 1
                },
                Err(e) => {
                    &&& e == ApiError::BadRequest
                    &&& !infer_is_image(data@)
                    &&& *final(self) == *old(self)
                },
            },
    {
        if !bytes_are_image(data.as_slice()) {
            return Err(ApiError::BadRequest);
        }
        let name = sanitize_name(filename);
        let response = UploadedFile { id: self.next_file_id, filename: name.clone() };
        let row = FileRow {
            id: self.next_file_id,
            user_id,
            created_at: now,
            filename: name,
            data,
            ocr: None,
        };
        let ghost row_id = row.id;
        self.files.push(row);
        self.next_file_id = self.next_file_id + 1;
        proof {
            assert(file_ids(self.files@) =~= file_ids(old(self).files@).push(row_id));
            assert(ids_well_formed(file_ids(self.files@), self.next_file_id));
            assert(self.files@.drop_last() =~= old(self).files@);
        }
        Ok(response)
    }

    /// Stores one uploaded image stamped with the current wall-clock time.
    pub fn upload_image(&mut self, user_id: i32, filename: &str, data: Vec<u8>) -> (r: Result<
        UploadedFile,
        ApiError,
    >)
        requires
            old(self).wf(),
            old(self).next_file_id < i32::MAX,
        ensures
            final(self).wf(),
            *final(self) == (Store {
                files: final(self).files,
                next_file_id: final(self).next_file_id,
                ..*old(self)
            }),
            match r {
                Ok(f) => {
                    &&& infer_is_image(data@)
                    &&& f.id == old(self).next_file_id
                    &&& f.filename@ == sanitized_filename(filename@)
                    &&& final(self).files@.len() == old(self).files@.len() + 1
                    &&& final(self).files@.drop_last() == old(self).files@
                    &&& ({
                        let row = final(self).files@.last();
                        &&& row.id == old(self).next_file_id
                        &&& row.user_id == user_id
                        &&& row.filename@ == sanitized_filename(filename@)
                        &&& row.data == data
                        &&& row.ocr is None
                    })
                },
                Err(e) => {
                    &&& e == ApiError::BadRequest
                    &&& !infer_is_image(data@)
                    &&& *final(self) == *old(self)
                },
            },
    {
        let now = now_timestamp();
        self.store_image(user_id, filename, data, now)
    }

    /// The raw bytes of a stored file; NotFound when no file has this id.
    pub fn get_file(&self, file_id: i32) -> (r: Result<Vec<u8>, ApiError>)
        requires
            self.wf(),
        ensures
            match r {
                Ok(bytes) => {
                    &&& has_file(self.files@, file_id)
                    &&& bytes@ == self.files@[file_index(self.files@, file_id)].data@
                },
                Err(e) => e == ApiError::NotFound && !has_file(self.files@, file_id),
            },
    {
        match self.find_file(file_id) {
            None => Err(ApiError::NotFound),
            Some(i) => {
                proof {
                    lemma_file_index_unique(self.files@, self.next_file_id, file_id, i as int);
                }
                Ok(slice_to_vec(self.files[i].data.as_slice()))
            },
        }
    }

    /// Edits a file's metadata: each present field replaces the stored one.
    /// Only the owner may edit; anyone else is turned away as Forbidden, an
    /// unknown file is NotFound, and nothing changes on failure.
    pub fn edit_file(&mut self, actor: i32, file_id: i32, edit: EditFile) -> (r: Result<
        UploadedFile,
        ApiError,
    >)
        requires
            old(self).wf(),
        ensures
            final(self).wf(),
            *final(self) == (Store { files: final(self).files, ..*old(self) }),
            match r {
                Ok(f) => {
                    &&& has_file(old(self).files@, file_id)
                    &&& old(self).files@[file_index(old(self).files@, file_id)].user_id == actor
                    &&& final(self).files@ == old(self).files@.update(
                        file_index(old(self).files@, file_id),
                        edited_file(
                            old(self).files@[file_index(old(self).files@, file_id)],
                            edit,
                        ),
                    )
                    &&& f.id == file_id
                    &&& f.filename == edited_file(
                        old(self).files@[file_index(old(self).files@, file_id)],
                        edit,
                    ).filename
                },
                Err(e) => {
                    &&& *final(self) == *old(self)
                    &&& (e == ApiError::NotFound <==> !has_file(old(self).files@, file_id))
                    &&& (e == ApiError::Forbidden <==> has_file(old(self).files@, file_id)
                        && old(self).files@[file_index(old(self).files@, file_id)].user_id
                        != actor)
                    &&& (e == ApiError::NotFound || e == ApiError::Forbidden)
                },
            },
    {
        let i = match self.find_file(file_id) {
            None => {
                return Err(ApiError::NotFound);
            },
            Some(i) => i,
        };
        proof {
            lemma_file_index_unique(self.files@, self.next_file_id, file_id, i as int);
        }
        if self.files[i].user_id != actor {
            return Err(ApiError::Forbidden);
        }
        let row = self.files.remove(i);
        let updated = FileRow {
            id: row.id,
            user_id: row.user_id,
            created_at: row.created_at,
            filename: match edit.filename {
                Some(n) => n,
                None => row.filename,
            },
            data: row.data,
            ocr: match edit.ocr {
                Some(t) => Some(t),
                None => row.ocr,
            },
        };
        self.files.insert(i, updated);
        let response = UploadedFile { id: self.files[i].id, filename: self.files[i].filename.clone() };
        proof {
            assert(self.files@ =~= old(self).files@.update(
                file_index(old(self).files@, file_id),
                edited_file(old(self).files@[file_index(old(self).files@, file_id)], edit),
            ));
            assert(file_ids(self.files@) =~= file_ids(old(self).files@));
        }
        Ok(response)
    }
}

} // verus!
