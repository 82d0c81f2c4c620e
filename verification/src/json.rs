use crate::manifest::{
    FontManifest, FontManifestView, ManifestFile, ManifestFileRef, ManifestFileRefView,
    ManifestFileView,
};
use vstd::prelude::*;

verus! {

#[verifier::external_type_specification]
#[verifier::external_body]
pub struct ExValue(serde_json::Value);

/// The mathematical shape of a JSON document, as far as this library reads
/// one: strings, arrays and objects are modelled exactly; null, booleans and
/// numbers are never consumed by the decoder and are collapsed to bare
/// variants.
pub enum JsonVal {
    Null,
    Bool,
    Num,
    Str(Seq<char>),
    Arr(Seq<JsonVal>),
    Obj(Map<Seq<char>, JsonVal>),
}

/// The document that a parsed `serde_json::Value` denotes.
pub uninterp spec fn json_model(v: serde_json::Value) -> JsonVal;

/// The outcome of parsing a text as one JSON document: `Some` with the
/// document it denotes, `None` where the text is not valid JSON.
pub uninterp spec fn json_parse_of(s: Seq<char>) -> Option<JsonVal>;

/// Relies on serde_json::from_str::<Value>: whether a text parses, and the
/// document it parses to, are functions of the text alone.
#[verifier::external_body]
pub(crate) fn json_from_str(s: &str) -> (r: Option<serde_json::Value>)
    ensures
        match r {
            Some(v) => json_parse_of(s@) == Some(json_model(v)),
            None => json_parse_of(s@) is None,
        },
{
    serde_json::from_str::<serde_json::Value>(s).ok()
}

/// Relies on serde_json::Value::get with a string key: on an object it looks
/// the key up in the object's map; on any other document it returns None.
#[verifier::external_body]
pub(crate) fn json_get<'a>(v: &'a serde_json::Value, key: &str) -> (r: Option<
    &'a serde_json::Value,
>)
    ensures
        match json_model(*v) {
            JsonVal::Obj(m) => match r {
                Some(x) => m.contains_key(key@) && json_model(*x) == m[key@],
                None => !m.contains_key(key@),
            },
            _ => r is None,
        },
{
    v.get(key)
}

/// Relies on serde_json::Value::as_array: Some exactly on an array document,
/// returning its elements in order.
#[verifier::external_body]
pub(crate) fn json_as_array<'a>(v: &'a serde_json::Value) -> (r: Option<
    &'a Vec<serde_json::Value>,
>)
    ensures
        match r {
            Some(a) => json_model(*v) == JsonVal::Arr(
                a@.map_values(|e: serde_json::Value| json_model(e)),
            ),
            None => !(json_model(*v) is Arr),
        },
{
    v.as_array()
}

/// Relies on serde_json::Value::as_str: Some exactly on a string document,
/// returning that string.
#[verifier::external_body]
pub(crate) fn json_as_str<'a>(v: &'a serde_json::Value) -> (r: Option<&'a str>)
    ensures
        match r {
            Some(s) => json_model(*v) == JsonVal::Str(s@),
            None => !(json_model(*v) is Str),
        },
{
    v.as_str()
}

/// The string stored under key `k` of object map `m`, if the key is present
/// and holds a string.
pub open spec fn str_field(m: Map<Seq<char>, JsonVal>, k: Seq<char>) -> Option<Seq<char>> {
    if m.contains_key(k) {
        match m[k] {
            JsonVal::Str(s) => Some(s),
            _ => None,
        }
    } else {
        None
    }
}

/// Decode one inline-file entry: an object with string fields `filename`
/// and `contents`.
pub open spec fn decode_file_spec(j: JsonVal) -> Option<ManifestFileView> {
    match j {
        JsonVal::Obj(m) => match (str_field(m, "filename"@), str_field(m, "contents"@)) {
            (Some(f), Some(c)) => Some(ManifestFileView { filename: f, contents: c }),
            _ => None,
        },
        _ => None,
    }
}

/// Decode one file-reference entry: an object with string fields `filename`
/// and `url`.
pub open spec fn decode_ref_spec(j: JsonVal) -> Option<ManifestFileRefView> {
    match j {
        JsonVal::Obj(m) => match (str_field(m, "filename"@), str_field(m, "url"@)) {
            (Some(f), Some(u)) => Some(ManifestFileRefView { filename: f, url: u }),
            _ => None,
        },
        _ => None,
    }
}

pub open spec fn all_files_decode(elems: Seq<JsonVal>) -> bool {
    forall|i: int| 0 <= i < elems.len() ==> decode_file_spec(#[trigger] elems[i]) is Some
}

pub open spec fn all_refs_decode(elems: Seq<JsonVal>) -> bool {
    forall|i: int| 0 <= i < elems.len() ==> decode_ref_spec(#[trigger] elems[i]) is Some
}

/// Decode a `files` array: all-or-nothing over its elements.
pub open spec fn decode_files_spec(elems: Seq<JsonVal>) -> Option<Seq<ManifestFileView>> {
    if all_files_decode(elems) {
        Some(Seq::new(elems.len(), |i: int| decode_file_spec(elems[i]).unwrap()))
    } else {
        None
    }
}

/// Decode a `fileRefs` array: all-or-nothing over its elements.
pub open spec fn decode_refs_spec(elems: Seq<JsonVal>) -> Option<Seq<ManifestFileRefView>> {
    if all_refs_decode(elems) {
        Some(Seq::new(elems.len(), |i: int| decode_ref_spec(elems[i]).unwrap()))
    } else {
        None
    }
}

/// Decode the `manifest` object: `files` and `fileRefs` must both be arrays
/// whose every element decodes.
pub open spec fn decode_manifest_spec(j: JsonVal) -> Option<FontManifestView> {
    match j {
        JsonVal::Obj(m) => if m.contains_key("files"@) && m["files"@] is Arr && m.contains_key(
            "fileRefs"@,
        ) && m["fileRefs"@] is Arr {
            match (decode_files_spec(m["files"@]->Arr_0), decode_refs_spec(m["fileRefs"@]->Arr_0)) {
                (Some(fs), Some(rs)) => Some(FontManifestView { files: fs, file_refs: rs }),
                _ => None,
            }
        } else {
            None
        },
        _ => None,
    }
}

/// Decode the outer payload: an object whose `zipName` holds a string and
/// whose `manifest` decodes; `zipName` is checked and then discarded.
pub open spec fn decode_wrapper_spec(j: JsonVal) -> Option<FontManifestView> {
    match j {
        JsonVal::Obj(m) => if str_field(m, "zipName"@) is Some && m.contains_key("manifest"@) {
            decode_manifest_spec(m["manifest"@])
        } else {
            None
        },
        _ => None,
    }
}

fn decode_file(v: &serde_json::Value) -> (r: Option<ManifestFile>)
    ensures
        match r {
            Some(f) => decode_file_spec(json_model(*v)) == Some(f@),
            None => decode_file_spec(json_model(*v)) is None,
        },
{
    let fv = match json_get(v, "filename") {
        Some(x) => x,
        None => {
            return None;
        },
    };
    let f = match json_as_str(fv) {
        Some(s) => s,
        None => {
            return None;
        },
    };
    let cv = match json_get(v, "contents") {
        Some(x) => x,
        None => {
            return None;
        },
    };
    let c = match json_as_str(cv) {
        Some(s) => s,
        None => {
            return None;
        },
    };
    Some(ManifestFile { filename: f.to_owned(), contents: c.to_owned() })
}

fn decode_ref(v: &serde_json::Value) -> (r: Option<ManifestFileRef>)
    ensures
        match r {
            Some(f) => decode_ref_spec(json_model(*v)) == Some(f@),
            None => decode_ref_spec(json_model(*v)) is None,
        },
{
    let fv = match json_get(v, "filename") {
        Some(x) => x,
        None => {
            return None;
        },
    };
    let f = match json_as_str(fv) {
        Some(s) => s,
        None => {
            return None;
        },
    };
    let uv = match json_get(v, "url") {
        Some(x) => x,
        None => {
            return None;
        },
    };
    let u = match json_as_str(uv) {
        Some(s) => s,
        None => {
            return None;
        },
    };
    Some(ManifestFileRef { filename: f.to_owned(), url: u.to_owned() })
}

fn decode_files(arr: &Vec<serde_json::Value>) -> (r: Option<Vec<ManifestFile>>)
    ensures
        ({
            let elems = arr@.map_values(|e: serde_json::Value| json_model(e));
            match r {
                Some(fs) => decode_files_spec(elems) == Some(
                    fs@.map_values(|f: ManifestFile| f@),
                ),
                None => decode_files_spec(elems) is None,
            }
        }),
{
    let ghost elems = arr@.map_values(|e: serde_json::Value| json_model(e));
    let mut out: Vec<ManifestFile> = Vec::new();
    let mut i: usize = 0;
    while i < arr.len()
        invariant
            i <= arr@.len(),
            out@.len() == i,
            elems == arr@.map_values(|e: serde_json::Value| json_model(e)),
            forall|k: int|
                0 <= k < i ==> decode_file_spec(json_model(arr@[k])) == Some(#[trigger] out@[k]@),
        decreases arr@.len() - i,
    {
        match decode_file(&arr[i]) {
            Some(f) => {
                out.push(f);
            },
            None => {
                proof {
                    assert(elems[i as int] == json_model(arr@[i as int]));
                    assert(!all_files_decode(elems));
                }
                return None;
            },
        }
        i = i + 1;
    }
    proof {
        assert forall|k: int| 0 <= k < elems.len() implies decode_file_spec(
            #[trigger] elems[k],
        ) is Some by {
            assert(elems[k] == json_model(arr@[k]));
            assert(decode_file_spec(json_model(arr@[k])) == Some(out@[k]@));
        }
        assert(out@.map_values(|f: ManifestFile| f@) =~= Seq::new(
            elems.len(),
            |k: int| decode_file_spec(elems[k]).unwrap(),
        )) by {
            assert forall|k: int| 0 <= k < elems.len() implies out@.map_values(
                |f: ManifestFile| f@,
            )[k] == decode_file_spec(elems[k]).unwrap() by {
                assert(elems[k] == json_model(arr@[k]));
                assert(decode_file_spec(json_model(arr@[k])) == Some(out@[k]@));
            }
        }
    }
    Some(out)
}

fn decode_refs(arr: &Vec<serde_json::Value>) -> (r: Option<Vec<ManifestFileRef>>)
    ensures
        ({
            let elems = arr@.map_values(|e: serde_json::Value| json_model(e));
            match r {
                Some(rs) => decode_refs_spec(elems) == Some(
                    rs@.map_values(|f: ManifestFileRef| f@),
                ),
                None => decode_refs_spec(elems) is None,
            }
        }),
{
    let ghost elems = arr@.map_values(|e: serde_json::Value| json_model(e));
    let mut out: Vec<ManifestFileRef> = Vec::new();
    let mut i: usize = 0;
    while i < arr.len()
        invariant
            i <= arr@.len(),
            out@.len() == i,
            elems == arr@.map_values(|e: serde_json::Value| json_model(e)),
            forall|k: int|
                0 <= k < i ==> decode_ref_spec(json_model(arr@[k])) == Some(#[trigger] out@[k]@),
        decreases arr@.len() - i,
    {
        match decode_ref(&arr[i]) {
            Some(f) => {
                out.push(f);
            },
            None => {
                proof {
                    assert(elems[i as int] == json_model(arr@[i as int]));
                    assert(!all_refs_decode(elems));
                }
                return None;
            },
        }
        i = i + 1;
    }
    proof {
        assert forall|k: int| 0 <= k < elems.len() implies decode_ref_spec(
            #[trigger] elems[k],
        ) is Some by {
            assert(elems[k] == json_model(arr@[k]));
            assert(decode_ref_spec(json_model(arr@[k])) == Some(out@[k]@));
        }
        assert(out@.map_values(|f: ManifestFileRef| f@) =~= Seq::new(
            elems.len(),
            |k: int| decode_ref_spec(elems[k]).unwrap(),
        )) by {
            assert forall|k: int| 0 <= k < elems.len() implies out@.map_values(
                |f: ManifestFileRef| f@,
            )[k] == decode_ref_spec(elems[k]).unwrap() by {
                assert(elems[k] == json_model(arr@[k]));
                assert(decode_ref_spec(json_model(arr@[k])) == Some(out@[k]@));
            }
        }
    }
    Some(out)
}

/// Decode the whole payload document into a manifest.
pub(crate) fn decode_payload(v: &serde_json::Value) -> (r: Option<FontManifest>)
    ensures
        match r {
            Some(m) => decode_wrapper_spec(json_model(*v)) == Some(m@),
            None => decode_wrapper_spec(json_model(*v)) is None,
        },
{
    let zv = match json_get(v, "zipName") {
        Some(x) => x,
        None => {
            return None;
        },
    };
    match json_as_str(zv) {
        Some(_s) => {},
        None => {
            return None;
        },
    };
    let mv = match json_get(v, "manifest") {
        Some(x) => x,
        None => {
            return None;
        },
    };
    let fv = match json_get(mv, "files") {
        Some(x) => x,
        None => {
            return None;
        },
    };
    let fa = match json_as_array(fv) {
        Some(a) => a,
        None => {
            return None;
        },
    };
    let rv = match json_get(mv, "fileRefs") {
        Some(x) => x,
        None => {
            return None;
        },
    };
    let ra = match json_as_array(rv) {
        Some(a) => a,
        None => {
            return None;
        },
    };
    let files = match decode_files(fa) {
        Some(fs) => fs,
        None => {
            return None;
        },
    };
    let file_refs = match decode_refs(ra) {
        Some(rs) => rs,
        None => {
            return None;
        },
    };
    Some(FontManifest { files, file_refs })
}

} // verus!
