//! Discovery of the hashed file names that a generated page and its stylesheet
//! refer to.
//!
//! A reference is found by a small grammar of ordered marker pairs: the first
//! occurrence of the reference's opening marker, then the first closing marker
//! after it. The text between them is the reference's URL, and the part of the
//! URL after its last `/` is the referenced file's name. A page refers to one
//! script and to at most one stylesheet: a second reference to either is
//! rejected rather than ignored.

use crate::text::{find, find_from, lemma_find_from};
use vstd::prelude::*;
use vstd::slice::{slice_subrange, slice_to_vec};
use vstd::string::StringSliceAdditionalSpecFns;

verus! {

/// The byte of `/`, which separates the segments of a URL.
pub const SLASH: u8 = 0x2f;

/// A reference that a generated document makes to another build file.
#[derive(Clone, Copy, Debug, PartialEq, Eq, Structural)]
pub enum Reference {
    /// The page's script, `<script src="...">`.
    Script,
    /// The page's stylesheet, `<link rel="stylesheet" href="...">`.
    Stylesheet,
    /// The stylesheet's regular-weight font, under a plain `@font-face` block.
    FontRegular,
    /// The stylesheet's variable-weight font, under a
    /// `@supports (font-variation-settings:normal)` block.
    FontVariable,
}

/// Why discovery rejected a document.
#[derive(Clone, Copy, Debug, PartialEq, Eq, Structural)]
pub enum DiscoveryError {
    /// A reference that the document must make does not occur in it.
    MissingReference(Reference),
    /// The opening marker occurs, but no closing marker follows it.
    Unterminated(Reference),
    /// The reference's URL ends in `/` or is empty: it names no file.
    EmptyName(Reference),
    /// A page refers to more than one script, or to more than one stylesheet.
    Duplicate(Reference),
}

pub open spec fn opening_marker(r: Reference) -> Seq<u8> {
    match r {
        Reference::Script => "<script src=\"".spec_bytes(),
        Reference::Stylesheet => "<link rel=\"stylesheet\" href=\"".spec_bytes(),
        Reference::FontRegular => "@font-face{font-family:Fira Code;src:url(".spec_bytes(),
        Reference::FontVariable =>
            "@supports (font-variation-settings:normal){@font-face{font-family:Fira Code;src:url(".spec_bytes(),
    }
}

/// A page may make this reference once only. (The regular font's marker also
/// begins the variable font's block, so a stylesheet repeats it.)
pub open spec fn single_instance(r: Reference) -> bool {
    r == Reference::Script || r == Reference::Stylesheet
}

pub open spec fn closing_marker(r: Reference) -> Seq<u8> {
    match r {
        Reference::Script | Reference::Stylesheet => "\"".spec_bytes(),
        Reference::FontRegular | Reference::FontVariable => ")".spec_bytes(),
    }
}

/// The stable name that replaces a reference's hashed file name.
pub open spec fn fixed_name(r: Reference) -> Seq<u8> {
    match r {
        Reference::Script => "index.js".spec_bytes(),
        Reference::Stylesheet => "index.css".spec_bytes(),
        Reference::FontRegular => "FiraCode-Regular.ttf".spec_bytes(),
        Reference::FontVariable => "FiraCode-VariableFont_wght.ttf".spec_bytes(),
    }
}

impl Reference {
    pub fn opening(self) -> (m: &'static [u8])
        ensures
            m@ == opening_marker(self),
    {
        match self {
            Reference::Script => "<script src=\"".as_bytes(),
            Reference::Stylesheet => "<link rel=\"stylesheet\" href=\"".as_bytes(),
            Reference::FontRegular => "@font-face{font-family:Fira Code;src:url(".as_bytes(),
            Reference::FontVariable =>
                "@supports (font-variation-settings:normal){@font-face{font-family:Fira Code;src:url(".as_bytes(),
        }
    }

    pub fn closing(self) -> (m: &'static [u8])
        ensures
            m@ == closing_marker(self),
    {
        match self {
            Reference::Script | Reference::Stylesheet => "\"".as_bytes(),
            Reference::FontRegular | Reference::FontVariable => ")".as_bytes(),
        }
    }

    pub fn fixed_name(self) -> (n: &'static [u8])
        ensures
            n@ == fixed_name(self),
    {
        match self {
            Reference::Script => "index.js".as_bytes(),
            Reference::Stylesheet => "index.css".as_bytes(),
            Reference::FontRegular => "FiraCode-Regular.ttf".as_bytes(),
            Reference::FontVariable => "FiraCode-VariableFont_wght.ttf".as_bytes(),
        }
    }
}

/// The index just past the last `/` of `u`, or 0 where `u` has none.
pub open spec fn name_start(u: Seq<u8>) -> int
    decreases u.len(),
{
    if u.len() == 0 {
        0
    } else if u.last() == SLASH {
        u.len() as int
    } else {
        name_start(u.drop_last())
    }
}

/// The last segment of a URL: what follows its last `/`.
pub open spec fn file_name(u: Seq<u8>) -> Seq<u8> {
    u.subrange(name_start(u), u.len() as int)
}

pub proof fn lemma_name_start_bounds(u: Seq<u8>)
    ensures
        0 <= name_start(u) <= u.len(),
    decreases u.len(),
{
    if u.len() > 0 && u.last() != SLASH {
        lemma_name_start_bounds(u.drop_last());
    }
}

/// The URL of reference `r` in `doc`: `None` where its opening marker does not
/// occur.
pub open spec fn reference_url(doc: Seq<u8>, r: Reference) -> Result<Option<Seq<u8>>, DiscoveryError> {
    match find_from(doc, opening_marker(r), 0) {
        None => Ok(None),
        Some(i) => {
            let start = i + opening_marker(r).len();
            match find_from(doc, closing_marker(r), start) {
                None => Err(DiscoveryError::Unterminated(r)),
                Some(j) => if single_instance(r) && find_from(doc, opening_marker(r), start) is Some {
                    Err(DiscoveryError::Duplicate(r))
                } else {
                    Ok(Some(doc.subrange(start, j)))
                },
            }
        },
    }
}

/// The file name that reference `r` in `doc` names: `None` where the document
/// does not make that reference.
pub open spec fn referenced_name(doc: Seq<u8>, r: Reference) -> Result<Option<Seq<u8>>, DiscoveryError> {
    match reference_url(doc, r) {
        Ok(Some(u)) => if file_name(u).len() == 0 {
            Err(DiscoveryError::EmptyName(r))
        } else {
            Ok(Some(file_name(u)))
        },
        other => other,
    }
}

pub open spec fn view_name(n: Option<Vec<u8>>) -> Option<Seq<u8>> {
    match n {
        Some(v) => Some(v@),
        None => None,
    }
}

pub open spec fn view_found(r: Result<Option<Vec<u8>>, DiscoveryError>) -> Result<Option<Seq<u8>>, DiscoveryError> {
    match r {
        Ok(n) => Ok(view_name(n)),
        Err(e) => Err(e),
    }
}

fn name_start_exec(u: &[u8]) -> (k: usize)
    ensures
        k == name_start(u@),
{
    let mut k: usize = u.len();
    assert(u@.subrange(0, k as int) =~= u@);
    while k > 0
        invariant
            k <= u@.len(),
            name_start(u@) == name_start(u@.subrange(0, k as int)),
        decreases k,
    {
        if u[k - 1] == SLASH {
            return k;
        }
        assert(u@.subrange(0, k as int).drop_last() =~= u@.subrange(0, k - 1));
        k = k - 1;
    }
    k
}

/// Finds the file name that reference `r` in `doc` names.
pub fn discover_reference(doc: &[u8], r: Reference) -> (res: Result<Option<Vec<u8>>, DiscoveryError>)
    ensures
        view_found(res) == referenced_name(doc@, r),
{
    let open = r.opening();
    let n = doc.len();
    match find(doc, open, 0) {
        None => Ok(None),
        Some(i) => {
            proof {
                lemma_find_from(doc@, open@, 0);
                assert(i + open@.len() <= n);
            }
            let start = i + open.len();
            match find(doc, r.closing(), start) {
                None => Err(DiscoveryError::Unterminated(r)),
                Some(j) => {
                    proof {
                        lemma_find_from(doc@, closing_marker(r), start as int);
                    }
                    let once = match r {
                        Reference::Script | Reference::Stylesheet => true,
                        Reference::FontRegular | Reference::FontVariable => false,
                    };
                    if once && find(doc, open, start).is_some() {
                        return Err(DiscoveryError::Duplicate(r));
                    }
                    let url = slice_subrange(doc, start, j);
                    let k = name_start_exec(url);
                    proof {
                        lemma_name_start_bounds(url@);
                    }
                    if k == url.len() {
                        Err(DiscoveryError::EmptyName(r))
                    } else {
                        let name = slice_to_vec(slice_subrange(url, k, url.len()));
                        Ok(Some(name))
                    }
                },
            }
        },
    }
}

/// The references of a generated page: exactly one script, at most one
/// stylesheet.
pub struct PageManifest {
    pub script: Vec<u8>,
    pub stylesheet: Option<Vec<u8>>,
}

pub struct PageManifestView {
    pub script: Seq<u8>,
    pub stylesheet: Option<Seq<u8>>,
}

impl View for PageManifest {
    type V = PageManifestView;

    open spec fn view(&self) -> PageManifestView {
        PageManifestView { script: self.script@, stylesheet: view_name(self.stylesheet) }
    }
}

/// The font references of a stylesheet, each of which may be absent.
pub struct FontManifest {
    pub regular: Option<Vec<u8>>,
    pub variable: Option<Vec<u8>>,
}

pub struct FontManifestView {
    pub regular: Option<Seq<u8>>,
    pub variable: Option<Seq<u8>>,
}

impl View for FontManifest {
    type V = FontManifestView;

    open spec fn view(&self) -> FontManifestView {
        FontManifestView { regular: view_name(self.regular), variable: view_name(self.variable) }
    }
}

/// What a page refers to. A page without a script reference is not a page
/// that the build produces, and is rejected.
pub open spec fn page_manifest(html: Seq<u8>) -> Result<PageManifestView, DiscoveryError> {
    match referenced_name(html, Reference::Script) {
        Err(e) => Err(e),
        Ok(None) => Err(DiscoveryError::MissingReference(Reference::Script)),
        Ok(Some(script)) => match referenced_name(html, Reference::Stylesheet) {
            Err(e) => Err(e),
            Ok(stylesheet) => Ok(PageManifestView { script, stylesheet }),
        },
    }
}

/// What a stylesheet refers to.
pub open spec fn font_manifest(css: Seq<u8>) -> Result<FontManifestView, DiscoveryError> {
    match referenced_name(css, Reference::FontRegular) {
        Err(e) => Err(e),
        Ok(regular) => match referenced_name(css, Reference::FontVariable) {
            Err(e) => Err(e),
            Ok(variable) => Ok(FontManifestView { regular, variable }),
        },
    }
}

/// Finds the script and stylesheet that a generated page refers to.
pub fn discover_page(html: &[u8]) -> (res: Result<PageManifest, DiscoveryError>)
    ensures
        match res {
            Ok(m) => page_manifest(html@) == Ok::<PageManifestView, DiscoveryError>(m@),
            Err(e) => page_manifest(html@) == Err::<PageManifestView, DiscoveryError>(e),
        },
{
    let script = match discover_reference(html, Reference::Script) {
        Err(e) => return Err(e),
        Ok(None) => return Err(DiscoveryError::MissingReference(Reference::Script)),
        Ok(Some(n)) => n,
    };
    let stylesheet = match discover_reference(html, Reference::Stylesheet) {
        Err(e) => return Err(e),
        Ok(n) => n,
    };
    Ok(PageManifest { script, stylesheet })
}

/// Finds the fonts that a stylesheet refers to.
pub fn discover_fonts(css: &[u8]) -> (res: Result<FontManifest, DiscoveryError>)
    ensures
        match res {
            Ok(m) => font_manifest(css@) == Ok::<FontManifestView, DiscoveryError>(m@),
            Err(e) => font_manifest(css@) == Err::<FontManifestView, DiscoveryError>(e),
        },
{
    let regular = match discover_reference(css, Reference::FontRegular) {
        Err(e) => return Err(e),
        Ok(n) => n,
    };
    let variable = match discover_reference(css, Reference::FontVariable) {
        Err(e) => return Err(e),
        Ok(n) => n,
    };
    Ok(FontManifest { regular, variable })
}

} // verus!
