//! Turning a hashed build into a self-contained set of fixed-named resources.
//!
//! Every hashed file name that the page and its stylesheet refer to is
//! replaced, wherever it occurs in them, by the fixed name under which the file
//! is served. A document in which a hashed name still occurs after that is
//! rejected rather than embedded.

use crate::manifest::{
    discover_fonts, discover_page, font_manifest, page_manifest, view_name, DiscoveryError,
    FontManifestView, PageManifestView, Reference, fixed_name, opening_marker,
};
use crate::text::{bytes_eq, contains, find, lemma_contains_iff_found, lemma_replace_absent,
    lemma_replace_by_itself, replace, replace_all};
use vstd::prelude::*;
use vstd::slice::slice_to_vec;

verus! {

/// A file of the front-end build: its name in the build directory and its
/// bytes.
pub struct BuildFile {
    pub name: Vec<u8>,
    pub content: Vec<u8>,
}

/// Why a build could not be bundled.
#[derive(Clone, Copy, Debug, PartialEq, Eq, Structural)]
pub enum BundleError {
    /// The page or its stylesheet does not have the expected shape.
    Discovery(DiscoveryError),
    /// A referenced file is not among the build's files.
    MissingFile(Reference),
    /// The hashed name of a reference still occurs after rewriting.
    StaleReference(Reference),
}

/// The embedded resources, built once and read only afterwards.
pub struct AssetSet {
    page: Vec<u8>,
    script: Vec<u8>,
    stylesheet: Option<Vec<u8>>,
    font_regular: Option<Vec<u8>>,
    font_variable: Option<Vec<u8>>,
}

pub struct AssetSetView {
    pub page: Seq<u8>,
    pub script: Seq<u8>,
    pub stylesheet: Option<Seq<u8>>,
    pub font_regular: Option<Seq<u8>>,
    pub font_variable: Option<Seq<u8>>,
}

impl View for AssetSet {
    type V = AssetSetView;

    closed spec fn view(&self) -> AssetSetView {
        AssetSetView {
            page: self.page@,
            script: self.script@,
            stylesheet: view_name(self.stylesheet),
            font_regular: view_name(self.font_regular),
            font_variable: view_name(self.font_variable),
        }
    }
}

/// A resource that the set holds.
#[derive(Clone, Copy, Debug, PartialEq, Eq, Structural)]
pub enum Asset {
    Page,
    Script,
    Stylesheet,
    FontRegular,
    FontVariable,
}

impl AssetSetView {
    /// The bytes of resource `a`, where the set holds it.
    pub open spec fn resource(self, a: Asset) -> Option<Seq<u8>> {
        match a {
            Asset::Page => Some(self.page),
            Asset::Script => Some(self.script),
            Asset::Stylesheet => self.stylesheet,
            Asset::FontRegular => self.font_regular,
            Asset::FontVariable => self.font_variable,
        }
    }
}

pub open spec fn view_slice(s: Option<&[u8]>) -> Option<Seq<u8>> {
    match s {
        Some(b) => Some(b@),
        None => None,
    }
}

fn as_slice_opt(v: &Option<Vec<u8>>) -> (r: Option<&[u8]>)
    ensures
        view_slice(r) == view_name(*v),
{
    match v {
        Some(b) => Some(b.as_slice()),
        None => None,
    }
}

/// The content of the first build file called `name`.
pub open spec fn lookup(files: Seq<BuildFile>, name: Seq<u8>) -> Option<Seq<u8>>
    decreases files.len(),
{
    if files.len() == 0 {
        None
    } else if files[0].name@ == name {
        Some(files[0].content@)
    } else {
        lookup(files.drop_first(), name)
    }
}

/// The content of the file that a reference names, where it makes one.
pub open spec fn resolve(files: Seq<BuildFile>, name: Option<Seq<u8>>, r: Reference) -> Result<
    Option<Seq<u8>>,
    BundleError,
> {
    match name {
        None => Ok(None),
        Some(n) => match lookup(files, n) {
            None => Err(BundleError::MissingFile(r)),
            Some(c) => Ok(Some(c)),
        },
    }
}

/// `doc` with the hashed name of reference `r`, where there is one, replaced
/// by the reference's fixed name.
pub open spec fn rewrite_with(doc: Seq<u8>, name: Option<Seq<u8>>, r: Reference) -> Seq<u8> {
    match name {
        Some(h) => replace_all(doc, h, fixed_name(r)),
        None => doc,
    }
}

/// A hashed name other than its fixed name still occurs in `doc`.
pub open spec fn stale(doc: Seq<u8>, name: Option<Seq<u8>>, r: Reference) -> bool {
    match name {
        Some(h) => h != fixed_name(r) && contains(doc, h),
        None => false,
    }
}

pub open spec fn rewrite_page(html: Seq<u8>, m: PageManifestView) -> Seq<u8> {
    rewrite_with(
        rewrite_with(html, Some(m.script), Reference::Script),
        m.stylesheet,
        Reference::Stylesheet,
    )
}

pub open spec fn rewrite_stylesheet(css: Seq<u8>, f: FontManifestView) -> Seq<u8> {
    rewrite_with(
        rewrite_with(css, f.regular, Reference::FontRegular),
        f.variable,
        Reference::FontVariable,
    )
}

/// What a stylesheet contributes to the resources: itself rewritten, and the
/// fonts it refers to.
pub struct StyleAssetsView {
    pub stylesheet: Seq<u8>,
    pub font_regular: Option<Seq<u8>>,
    pub font_variable: Option<Seq<u8>>,
}

pub open spec fn style_assets(files: Seq<BuildFile>, css: Seq<u8>) -> Result<
    StyleAssetsView,
    BundleError,
> {
    match font_manifest(css) {
        Err(e) => Err(BundleError::Discovery(e)),
        Ok(f) => match resolve(files, f.regular, Reference::FontRegular) {
            Err(e) => Err(e),
            Ok(font_regular) => match resolve(files, f.variable, Reference::FontVariable) {
                Err(e) => Err(e),
                Ok(font_variable) => {
                    let stylesheet = rewrite_stylesheet(css, f);
                    if stale(stylesheet, f.regular, Reference::FontRegular) {
                        Err(BundleError::StaleReference(Reference::FontRegular))
                    } else if stale(stylesheet, f.variable, Reference::FontVariable) {
                        Err(BundleError::StaleReference(Reference::FontVariable))
                    } else {
                        Ok(StyleAssetsView { stylesheet, font_regular, font_variable })
                    }
                },
            },
        },
    }
}

/// The resources that a page and the build's files bundle into.
pub open spec fn bundle(html: Seq<u8>, files: Seq<BuildFile>) -> Result<AssetSetView, BundleError> {
    match page_manifest(html) {
        Err(e) => Err(BundleError::Discovery(e)),
        Ok(m) => match lookup(files, m.script) {
            None => Err(BundleError::MissingFile(Reference::Script)),
            Some(script) => match resolve(files, m.stylesheet, Reference::Stylesheet) {
                Err(e) => Err(e),
                Ok(css) => {
                    let page = rewrite_page(html, m);
                    if stale(page, Some(m.script), Reference::Script) {
                        Err(BundleError::StaleReference(Reference::Script))
                    } else if stale(page, m.stylesheet, Reference::Stylesheet) {
                        Err(BundleError::StaleReference(Reference::Stylesheet))
                    } else {
                        match css {
                            None => Ok(
                                AssetSetView {
                                    page,
                                    script,
                                    stylesheet: None,
                                    font_regular: None,
                                    font_variable: None,
                                },
                            ),
                            Some(c) => match style_assets(files, c) {
                                Err(e) => Err(e),
                                Ok(s) => Ok(
                                    AssetSetView {
                                        page,
                                        script,
                                        stylesheet: Some(s.stylesheet),
                                        font_regular: s.font_regular,
                                        font_variable: s.font_variable,
                                    },
                                ),
                            },
                        }
                    }
                },
            },
        },
    }
}

fn find_file(files: &[BuildFile], name: &[u8]) -> (r: Option<Vec<u8>>)
    ensures
        view_name(r) == lookup(files@, name@),
{
    let mut i: usize = 0;
    assert(files@.subrange(0, files@.len() as int) =~= files@);
    while i < files.len()
        invariant
            i <= files@.len(),
            lookup(files@, name@) == lookup(files@.subrange(i as int, files@.len() as int), name@),
        decreases files@.len() - i,
    {
        let ghost rest = files@.subrange(i as int, files@.len() as int);
        if bytes_eq(files[i].name.as_slice(), name) {
            return Some(slice_to_vec(files[i].content.as_slice()));
        }
        assert(rest.drop_first() =~= files@.subrange(i + 1, files@.len() as int));
        i = i + 1;
    }
    None
}

fn resolve_exec(files: &[BuildFile], name: &Option<Vec<u8>>, r: Reference) -> (res: Result<
    Option<Vec<u8>>,
    BundleError,
>)
    ensures
        match res {
            Ok(c) => resolve(files@, view_name(*name), r) == Ok::<Option<Seq<u8>>, BundleError>(
                view_name(c),
            ),
            Err(e) => resolve(files@, view_name(*name), r) == Err::<Option<Seq<u8>>, BundleError>(
                e,
            ),
        },
{
    match name {
        None => Ok(None),
        Some(n) => match find_file(files, n.as_slice()) {
            None => Err(BundleError::MissingFile(r)),
            Some(c) => Ok(Some(c)),
        },
    }
}

fn rewrite_with_exec(doc: Vec<u8>, name: &Option<Vec<u8>>, r: Reference) -> (out: Vec<u8>)
    ensures
        out@ == rewrite_with(doc@, view_name(*name), r),
{
    match name {
        Some(h) => replace(doc.as_slice(), h.as_slice(), r.fixed_name()),
        None => doc,
    }
}

fn is_stale(doc: &[u8], name: &Option<Vec<u8>>, r: Reference) -> (res: bool)
    ensures
        res == stale(doc@, view_name(*name), r),
{
    match name {
        Some(h) => {
            if bytes_eq(h.as_slice(), r.fixed_name()) {
                false
            } else {
                proof {
                    lemma_contains_iff_found(doc@, h@);
                }
                find(doc, h.as_slice(), 0).is_some()
            }
        },
        None => false,
    }
}

fn copy_name(n: &Vec<u8>) -> (r: Option<Vec<u8>>)
    ensures
        view_name(r) == Some(n@),
{
    Some(slice_to_vec(n.as_slice()))
}

impl AssetSet {
    /// The bytes of resource `a`, where the set holds it.
    pub fn payload(&self, a: Asset) -> (r: Option<&[u8]>)
        ensures
            view_slice(r) == self@.resource(a),
    {
        match a {
            Asset::Page => Some(self.page.as_slice()),
            Asset::Script => Some(self.script.as_slice()),
            Asset::Stylesheet => as_slice_opt(&self.stylesheet),
            Asset::FontRegular => as_slice_opt(&self.font_regular),
            Asset::FontVariable => as_slice_opt(&self.font_variable),
        }
    }

    /// Bundles a generated page and the build's files: discovers what the page
    /// and its stylesheet refer to, takes those files, and rewrites the page
    /// and the stylesheet to the fixed names.
    pub fn bundle(html: &[u8], files: &[BuildFile]) -> (res: Result<AssetSet, BundleError>)
        ensures
            match res {
                Ok(a) => bundle(html@, files@) == Ok::<AssetSetView, BundleError>(a@),
                Err(e) => bundle(html@, files@) == Err::<AssetSetView, BundleError>(e),
            },
    {
        let m = match discover_page(html) {
            Err(e) => return Err(BundleError::Discovery(e)),
            Ok(m) => m,
        };
        let script = match find_file(files, m.script.as_slice()) {
            None => return Err(BundleError::MissingFile(Reference::Script)),
            Some(c) => c,
        };
        let css = match resolve_exec(files, &m.stylesheet, Reference::Stylesheet) {
            Err(e) => return Err(e),
            Ok(c) => c,
        };
        let script_name = copy_name(&m.script);
        let first = rewrite_with_exec(slice_to_vec(html), &script_name, Reference::Script);
        let page = rewrite_with_exec(first, &m.stylesheet, Reference::Stylesheet);
        if is_stale(page.as_slice(), &script_name, Reference::Script) {
            return Err(BundleError::StaleReference(Reference::Script));
        }
        if is_stale(page.as_slice(), &m.stylesheet, Reference::Stylesheet) {
            return Err(BundleError::StaleReference(Reference::Stylesheet));
        }
        match css {
            None => Ok(
                AssetSet { page, script, stylesheet: None, font_regular: None, font_variable: None },
            ),
            Some(c) => {
                let f = match discover_fonts(c.as_slice()) {
                    Err(e) => return Err(BundleError::Discovery(e)),
                    Ok(f) => f,
                };
                let font_regular = match resolve_exec(files, &f.regular, Reference::FontRegular) {
                    Err(e) => return Err(e),
                    Ok(x) => x,
                };
                let font_variable = match resolve_exec(
                    files,
                    &f.variable,
                    Reference::FontVariable,
                ) {
                    Err(e) => return Err(e),
                    Ok(x) => x,
                };
                let first = rewrite_with_exec(c, &f.regular, Reference::FontRegular);
                let stylesheet = rewrite_with_exec(first, &f.variable, Reference::FontVariable);
                if is_stale(stylesheet.as_slice(), &f.regular, Reference::FontRegular) {
                    return Err(BundleError::StaleReference(Reference::FontRegular));
                }
                if is_stale(stylesheet.as_slice(), &f.variable, Reference::FontVariable) {
                    return Err(BundleError::StaleReference(Reference::FontVariable));
                }
                Ok(
                    AssetSet {
                        page,
                        script,
                        stylesheet: Some(stylesheet),
                        font_regular,
                        font_variable,
                    },
                )
            },
        }
    }
}

proof fn lemma_rewrite_without_stale(doc: Seq<u8>, name: Option<Seq<u8>>, r: Reference)
    requires
        !stale(doc, name, r),
    ensures
        rewrite_with(doc, name, r) == doc,
{
    if let Some(h) = name {
        if h == fixed_name(r) {
            lemma_replace_by_itself(doc, h);
        } else {
            lemma_replace_absent(doc, h, fixed_name(r));
        }
    }
}

/// Rewriting is idempotent on what a bundle holds: rewriting its page again
/// with the page's references, or its stylesheet again with the stylesheet's
/// references, changes nothing, as no hashed name is left to substitute.
pub proof fn lemma_rewrite_idempotent(html: Seq<u8>, files: Seq<BuildFile>)
    requires
        bundle(html, files) is Ok,
    ensures
        ({
            let v = bundle(html, files)->Ok_0;
            let m = page_manifest(html)->Ok_0;
            &&& rewrite_page(v.page, m) == v.page
            &&& v.stylesheet is Some ==> {
                let css = lookup(files, m.stylesheet->Some_0)->Some_0;
                let f = font_manifest(css)->Ok_0;
                rewrite_stylesheet(v.stylesheet->Some_0, f) == v.stylesheet->Some_0
            }
        }),
{
    let v = bundle(html, files)->Ok_0;
    let m = page_manifest(html)->Ok_0;
    lemma_rewrite_without_stale(v.page, Some(m.script), Reference::Script);
    lemma_rewrite_without_stale(v.page, m.stylesheet, Reference::Stylesheet);
    if v.stylesheet is Some {
        let css = lookup(files, m.stylesheet->Some_0)->Some_0;
        let f = font_manifest(css)->Ok_0;
        let s = v.stylesheet->Some_0;
        lemma_rewrite_without_stale(s, f.regular, Reference::FontRegular);
        lemma_rewrite_without_stale(s, f.variable, Reference::FontVariable);
    }
}

/// A bundled page holds none of the hashed names of the script and stylesheet
/// it refers to, and a bundled stylesheet none of those of its fonts, but
/// where a hashed name is its fixed name already.
pub proof fn lemma_only_fixed_names(html: Seq<u8>, files: Seq<BuildFile>)
    requires
        bundle(html, files) is Ok,
    ensures
        ({
            let v = bundle(html, files)->Ok_0;
            let m = page_manifest(html)->Ok_0;
            &&& m.script != fixed_name(Reference::Script) ==> !contains(v.page, m.script)
            &&& m.stylesheet matches Some(c) ==> (c != fixed_name(Reference::Stylesheet)
                ==> !contains(v.page, c))
            &&& v.stylesheet is Some ==> {
                let css = lookup(files, m.stylesheet->Some_0)->Some_0;
                let f = font_manifest(css)->Ok_0;
                &&& f.regular matches Some(h) ==> (h != fixed_name(Reference::FontRegular)
                    ==> !contains(v.stylesheet->Some_0, h))
                &&& f.variable matches Some(h) ==> (h != fixed_name(Reference::FontVariable)
                    ==> !contains(v.stylesheet->Some_0, h))
            }
        }),
{
}

/// A page in which the script's opening marker does not occur is not
/// bundled, whatever the build's files.
pub proof fn lemma_missing_script_fails(html: Seq<u8>, files: Seq<BuildFile>)
    requires
        !contains(html, opening_marker(Reference::Script)),
    ensures
        bundle(html, files) == Err::<AssetSetView, BundleError>(
            BundleError::Discovery(DiscoveryError::MissingReference(Reference::Script)),
        ),
{
    lemma_contains_iff_found(html, opening_marker(Reference::Script));
}

} // verus!
