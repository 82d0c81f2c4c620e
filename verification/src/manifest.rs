use crate::text::replace_char;
use vstd::prelude::*;

verus! {

/// A file whose full content is embedded in the manifest (license, readme).
#[derive(Clone, Debug, PartialEq, Eq)]
pub struct ManifestFile {
    pub filename: String,
    pub contents: String,
}

/// A pointer to a file that must be fetched separately from `url`.
#[derive(Clone, Debug, PartialEq, Eq)]
pub struct ManifestFileRef {
    pub filename: String,
    pub url: String,
}

/// The unit of work for one fetch request: the inline files and the file
/// references that make up one or more font families. Filenames are relative
/// paths; uniqueness across the two lists is not guaranteed.
#[derive(Clone, Debug, PartialEq, Eq)]
pub struct FontManifest {
    pub files: Vec<ManifestFile>,
    pub file_refs: Vec<ManifestFileRef>,
}

#[verifier::ext_equal]
pub struct ManifestFileView {
    pub filename: Seq<char>,
    pub contents: Seq<char>,
}

#[verifier::ext_equal]
pub struct ManifestFileRefView {
    pub filename: Seq<char>,
    pub url: Seq<char>,
}

#[verifier::ext_equal]
pub struct FontManifestView {
    pub files: Seq<ManifestFileView>,
    pub file_refs: Seq<ManifestFileRefView>,
}

impl View for ManifestFile {
    type V = ManifestFileView;

    open spec fn view(&self) -> ManifestFileView {
        ManifestFileView { filename: self.filename@, contents: self.contents@ }
    }
}

impl View for ManifestFileRef {
    type V = ManifestFileRefView;

    open spec fn view(&self) -> ManifestFileRefView {
        ManifestFileRefView { filename: self.filename@, url: self.url@ }
    }
}

impl View for FontManifest {
    type V = FontManifestView;

    open spec fn view(&self) -> FontManifestView {
        FontManifestView {
            files: self.files@.map_values(|f: ManifestFile| f@),
            file_refs: self.file_refs@.map_values(|f: ManifestFileRef| f@),
        }
    }
}

/// The filename `name` rewritten under the directory `p`: `"{p}/{name}"`.
pub open spec fn prefixed(p: Seq<char>, name: Seq<char>) -> Seq<char> {
    p + seq!['/'] + name
}

/// The manifest with every filename in both lists rewritten to
/// `"{p}/{filename}"`; contents and urls are unchanged.
pub open spec fn with_prefix_spec(m: FontManifestView, p: Seq<char>) -> FontManifestView {
    FontManifestView {
        files: m.files.map_values(
            (|f: ManifestFileView| ManifestFileView {
                filename: prefixed(p, f.filename),
                contents: f.contents,
            }),
        ),
        file_refs: m.file_refs.map_values(
            (|f: ManifestFileRefView| ManifestFileRefView {
                filename: prefixed(p, f.filename),
                url: f.url,
            }),
        ),
    }
}

impl FontManifest {
    /// Produce a new manifest where every `filename` in both `files` and
    /// `file_refs` is rewritten to `"{path}/{filename}"`. Pure and total:
    /// the input manifest is consumed, never mutated in place.
    pub fn prepand_path_to_files(self, path: &str) -> (r: Self)
        ensures
            r@ == with_prefix_spec(self@, path@),
    {
        let mut files: Vec<ManifestFile> = Vec::new();
        let mut i: usize = 0;
        while i < self.files.len()
            invariant
                i <= self.files@.len(),
                files@.len() == i,
                forall|k: int|
                    0 <= k < i ==> #[trigger] files@[k]@ == (ManifestFileView {
                        filename: prefixed(path@, self.files@[k]@.filename),
                        contents: self.files@[k]@.contents,
                    }),
            decreases self.files@.len() - i,
        {
            let nf = ManifestFile {
                filename: crate::text::join_with_slash(path, self.files[i].filename.as_str()),
                contents: self.files[i].contents.clone(),
            };
            files.push(nf);
            i = i + 1;
        }
        let mut file_refs: Vec<ManifestFileRef> = Vec::new();
        let mut j: usize = 0;
        while j < self.file_refs.len()
            invariant
                j <= self.file_refs@.len(),
                file_refs@.len() == j,
                forall|k: int|
                    0 <= k < j ==> #[trigger] file_refs@[k]@ == (ManifestFileRefView {
                        filename: prefixed(path@, self.file_refs@[k]@.filename),
                        url: self.file_refs@[k]@.url,
                    }),
            decreases self.file_refs@.len() - j,
        {
            let nr = ManifestFileRef {
                filename: crate::text::join_with_slash(path, self.file_refs[j].filename.as_str()),
                url: self.file_refs[j].url.clone(),
            };
            file_refs.push(nr);
            j = j + 1;
        }
        let r = FontManifest { files, file_refs };
        proof {
            assert(r@.files =~= with_prefix_spec(self@, path@).files);
            assert(r@.file_refs =~= with_prefix_spec(self@, path@).file_refs);
            assert(r@ =~= with_prefix_spec(self@, path@));
        }
        r
    }
}

/// The single-font subdirectory convention: with exactly one requested name
/// the manifest is rewritten under a directory named after that font, spaces
/// replaced by underscores; with any other count it passes through unchanged.
pub fn apply_prefix_policy(m: FontManifest, font_names: &Vec<String>) -> (r: FontManifest)
    ensures
        font_names@.len() == 1 ==> r@ == with_prefix_spec(
            m@,
            replace_char(font_names@[0]@, ' ', '_'),
        ),
        font_names@.len() != 1 ==> r@ == m@,
{
    if font_names.len() == 1 {
        let p = crate::text::replace_char_in(font_names[0].as_str(), ' ', '_');
        m.prepand_path_to_files(p.as_str())
    } else {
        m
    }
}

/// Law: prefixing rewrites every filename, in both lists, to `"{p}/{filename}"`,
/// leaving every `contents` and `url` unchanged, and keeps both lengths.
pub proof fn lemma_with_prefix_entries(m: FontManifestView, p: Seq<char>)
    ensures
        with_prefix_spec(m, p).files.len() == m.files.len(),
        with_prefix_spec(m, p).file_refs.len() == m.file_refs.len(),
        forall|i: int|
            0 <= i < m.files.len() ==> #[trigger] with_prefix_spec(m, p).files[i]
                == (ManifestFileView {
                filename: prefixed(p, m.files[i].filename),
                contents: m.files[i].contents,
            }),
        forall|i: int|
            0 <= i < m.file_refs.len() ==> #[trigger] with_prefix_spec(m, p).file_refs[i]
                == (ManifestFileRefView {
                filename: prefixed(p, m.file_refs[i].filename),
                url: m.file_refs[i].url,
            }),
{
}

proof fn lemma_prefixed_injective(p1: Seq<char>, p2: Seq<char>, name: Seq<char>)
    requires
        prefixed(p1, name) == prefixed(p2, name),
    ensures
        p1 == p2,
{
    assert(prefixed(p1, name).len() == p1.len() + 1 + name.len());
    assert(prefixed(p2, name).len() == p2.len() + 1 + name.len());
    assert(p1.len() == p2.len());
    assert(p1 =~= p2) by {
        assert forall|i: int| 0 <= i < p1.len() implies p1[i] == p2[i] by {
            assert(prefixed(p1, name)[i] == p1[i]);
            assert(prefixed(p2, name)[i] == p2[i]);
        }
    }
}

/// Law: on a manifest with at least one entry, distinct prefixes yield
/// distinct manifests; the rewrite never mixes one prefix into another's
/// entries.
pub proof fn lemma_with_prefix_injective(m: FontManifestView, p1: Seq<char>, p2: Seq<char>)
    requires
        m.files.len() + m.file_refs.len() > 0,
        with_prefix_spec(m, p1) == with_prefix_spec(m, p2),
    ensures
        p1 == p2,
{
    if m.files.len() > 0 {
        assert(with_prefix_spec(m, p1).files[0] == with_prefix_spec(m, p2).files[0]);
        assert(prefixed(p1, m.files[0].filename) == prefixed(p2, m.files[0].filename));
        lemma_prefixed_injective(p1, p2, m.files[0].filename);
    } else {
        assert(with_prefix_spec(m, p1).file_refs[0] == with_prefix_spec(m, p2).file_refs[0]);
        assert(prefixed(p1, m.file_refs[0].filename) == prefixed(p2, m.file_refs[0].filename));
        lemma_prefixed_injective(p1, p2, m.file_refs[0].filename);
    }
}

} // verus!
