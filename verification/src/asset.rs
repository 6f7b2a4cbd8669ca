//! Release assets: the closed set of boot content types, the classification
//! of declared MIME strings, and the total order on assets.

use crate::text::{lemma_lex_asymmetric, lemma_lex_total, lemma_lex_transitive, lex_lt, order_text, same_text, Order};
use vstd::prelude::*;

verus! {

/// Dispatch content types
///
/// A release asset is tagged with one of three dispatch MIME strings. Each
/// maps to the one content type that UEFI firmware accepts for it, so only
/// assets tagged this way can be served.
#[derive(Debug, Clone, Copy, PartialEq, Eq, PartialOrd, Ord, Hash, Structural)]
pub enum Type {
    /// An EFI module
    Efi,
    /// An ISO image
    Iso,
    /// A ramdisk image
    Img,
}

impl Type {
    /// The MIME string that tags a release asset of this type.
    pub open spec fn dispatch_mime(self) -> Seq<char> {
        match self {
            Type::Efi => "application/vnd.dispatch+efi"@,
            Type::Iso => "application/vnd.dispatch+iso"@,
            Type::Img => "application/vnd.dispatch+img"@,
        }
    }

    /// The content type that UEFI firmware requires for this type.
    pub open spec fn canonical_mime(self) -> Seq<char> {
        match self {
            Type::Efi => "application/efi"@,
            Type::Iso => "application/vnd.efi-iso"@,
            Type::Img => "application/vnd.efi-img"@,
        }
    }

    /// The type that a declared MIME string tags, if any.
    pub open spec fn of_mime(mime: Seq<char>) -> Option<Type> {
        if mime == Type::Efi.dispatch_mime() {
            Some(Type::Efi)
        } else if mime == Type::Iso.dispatch_mime() {
            Some(Type::Iso)
        } else if mime == Type::Img.dispatch_mime() {
            Some(Type::Img)
        } else {
            None
        }
    }

    /// The position of this type in the order of the variants.
    pub open spec fn rank(self) -> int {
        match self {
            Type::Efi => 0,
            Type::Iso => 1,
            Type::Img => 2,
        }
    }

    /// The content type required by UEFI
    pub fn content_type(&self) -> (s: &'static str)
        ensures
            s@ == self.canonical_mime(),
    {
        match self {
            Type::Efi => "application/efi",
            Type::Iso => "application/vnd.efi-iso",
            Type::Img => "application/vnd.efi-img",
        }
    }

    /// Classifies a declared MIME string: the type it tags, or its own text
    /// where it tags none.
    pub fn classify(mime: String) -> (r: Knowable<Type, String>)
        ensures
            r == match Type::of_mime(mime@) {
                Some(t) => Knowable::<Type, String>::Known(t),
                None => Knowable::<Type, String>::Unknown(mime),
            },
    {
        if same_text(mime.as_str(), "application/vnd.dispatch+efi") {
            Knowable::Known(Type::Efi)
        } else if same_text(mime.as_str(), "application/vnd.dispatch+iso") {
            Knowable::Known(Type::Iso)
        } else if same_text(mime.as_str(), "application/vnd.dispatch+img") {
            Knowable::Known(Type::Img)
        } else {
            Knowable::Unknown(mime)
        }
    }

    fn rank_number(&self) -> (r: u8)
        ensures
            r == self.rank(),
    {
        match self {
            Type::Efi => 0,
            Type::Iso => 1,
            Type::Img => 2,
        }
    }
}

/// The three dispatch MIME strings differ, so a declared MIME string tags
/// at most one type, and each type is the one that its own string tags.
pub proof fn lemma_dispatch_mime_distinct(t: Type)
    ensures
        Type::of_mime(t.dispatch_mime()) == Some(t),
{
    reveal_strlit("application/vnd.dispatch+efi");
    reveal_strlit("application/vnd.dispatch+iso");
    reveal_strlit("application/vnd.dispatch+img");
    let efi = Type::Efi.dispatch_mime();
    let iso = Type::Iso.dispatch_mime();
    let img = Type::Img.dispatch_mime();
    assert(efi[25] == 'e' && iso[25] == 'i' && img[25] == 'i');
    assert(iso[26] == 's' && img[26] == 'm');
}

/// The three canonical content types differ: the type can be read back
/// from the content type that is served for it.
pub proof fn lemma_canonical_mime_injective(s: Type, t: Type)
    requires
        s.canonical_mime() == t.canonical_mime(),
    ensures
        s == t,
{
    reveal_strlit("application/efi");
    reveal_strlit("application/vnd.efi-iso");
    reveal_strlit("application/vnd.efi-img");
    let efi = Type::Efi.canonical_mime();
    let iso = Type::Iso.canonical_mime();
    let img = Type::Img.canonical_mime();
    assert(efi.len() == 15 && iso.len() == 23 && img.len() == 23);
    assert(iso[21] == 's' && img[21] == 'm');
}

/// A value that is either one of a known set or something else.
#[derive(Debug, Clone, PartialEq, Eq, PartialOrd, Ord, Hash)]
pub enum Knowable<K, U> {
    Known(K),
    Unknown(U),
}

impl<K, U> Knowable<K, U> {
    /// The known value, if this is one.
    pub fn known(self) -> (r: Option<K>)
        ensures
            r == match self {
                Knowable::Known(k) => Some(k),
                Knowable::Unknown(_) => None,
            },
    {
        match self {
            Knowable::Known(known) => Some(known),
            Knowable::Unknown(..) => None,
        }
    }
}

/// One downloadable file attached to a tagged release.
#[derive(Debug, Clone, PartialEq, Eq, PartialOrd, Ord, Hash)]
pub struct Asset<T = Type> {
    pub name: String,
    pub size: u64,
    pub url: String,
    pub mime: T,
}

/// What an asset is, with its texts as sequences of characters.
pub struct AssetView {
    pub name: Seq<char>,
    pub size: u64,
    pub url: Seq<char>,
    pub mime: Type,
}

impl View for Asset<Type> {
    type V = AssetView;

    open spec fn view(&self) -> AssetView {
        AssetView { name: self.name@, size: self.size, url: self.url@, mime: self.mime }
    }
}

impl Asset<String> {
    /// The asset that this listing entry stands for, if its declared MIME
    /// string tags a type.
    pub open spec fn recognized(self) -> Option<AssetView> {
        match Type::of_mime(self.mime@) {
            Some(t) => Some(AssetView { name: self.name@, size: self.size, url: self.url@, mime: t }),
            None => None,
        }
    }

    /// Classifies the declared MIME string and keeps the other fields.
    pub fn classify(self) -> (r: Asset<Knowable<Type, String>>)
        ensures
            r.name == self.name,
            r.size == self.size,
            r.url == self.url,
            r.mime == match Type::of_mime(self.mime@) {
                Some(t) => Knowable::<Type, String>::Known(t),
                None => Knowable::<Type, String>::Unknown(self.mime),
            },
    {
        Asset { name: self.name, size: self.size, url: self.url, mime: Type::classify(self.mime) }
    }
}

impl Asset<Knowable<Type, String>> {
    /// The asset with its type, unless the type is unknown.
    pub fn known(self) -> (r: Option<Asset>)
        ensures
            r == match self.mime {
                Knowable::Known(t) => Some(
                    (Asset { name: self.name, size: self.size, url: self.url, mime: t }),
                ),
                Knowable::Unknown(_) => None,
            },
    {
        match self.mime {
            Knowable::Known(mime) => Some(
                Asset { name: self.name, size: self.size, url: self.url, mime },
            ),
            Knowable::Unknown(..) => None,
        }
    }
}

/// `a` comes strictly before `b`: by name, then by size, then by URL, then
/// by type.
pub open spec fn asset_lt(a: AssetView, b: AssetView) -> bool {
    ||| lex_lt(a.name, b.name)
    ||| a.name == b.name && a.size < b.size
    ||| a.name == b.name && a.size == b.size && lex_lt(a.url, b.url)
    ||| a.name == b.name && a.size == b.size && a.url == b.url && a.mime.rank() < b.mime.rank()
}

/// The three-way comparison that goes with `asset_lt`.
pub open spec fn asset_order(a: AssetView, b: AssetView) -> Order {
    if a == b {
        Order::Equal
    } else if asset_lt(a, b) {
        Order::Less
    } else {
        Order::Greater
    }
}

impl Asset<Type> {
    /// Compares two assets by name, size, URL and type, in that order.
    pub fn order(&self, other: &Asset) -> (r: Order)
        ensures
            r == asset_order(self@, other@),
    {
        proof {
            lemma_asset_order_strict(self@, other@);
            if lex_lt(self.name@, other.name@) {
                lemma_lex_asymmetric(self.name@, other.name@);
            }
            if lex_lt(self.url@, other.url@) {
                lemma_lex_asymmetric(self.url@, other.url@);
            }
        }
        match order_text(self.name.as_str(), other.name.as_str()) {
            Order::Less => Order::Less,
            Order::Greater => Order::Greater,
            Order::Equal => {
                if self.size < other.size {
                    Order::Less
                } else if self.size > other.size {
                    Order::Greater
                } else {
                    match order_text(self.url.as_str(), other.url.as_str()) {
                        Order::Less => Order::Less,
                        Order::Greater => Order::Greater,
                        Order::Equal => {
                            let p: u8 = self.mime.rank_number();
                            let q: u8 = other.mime.rank_number();
                            if p < q {
                                Order::Less
                            } else if p > q {
                                Order::Greater
                            } else {
                                Order::Equal
                            }
                        },
                    }
                }
            },
        }
    }
}

/// The order on assets is strict: no asset comes before itself, and of two
/// assets at most one comes before the other.
pub proof fn lemma_asset_order_strict(a: AssetView, b: AssetView)
    ensures
        !(asset_lt(a, b) && asset_lt(b, a)),
        asset_lt(a, b) ==> a != b,
{
    if lex_lt(a.name, b.name) {
        lemma_lex_asymmetric(a.name, b.name);
    }
    if lex_lt(b.name, a.name) {
        lemma_lex_asymmetric(b.name, a.name);
    }
    if lex_lt(a.url, b.url) {
        lemma_lex_asymmetric(a.url, b.url);
    }
    if lex_lt(b.url, a.url) {
        lemma_lex_asymmetric(b.url, a.url);
    }
}

/// The order on assets is total: of two different assets one comes before
/// the other.
pub proof fn lemma_asset_order_total(a: AssetView, b: AssetView)
    ensures
        a == b || asset_lt(a, b) || asset_lt(b, a),
{
    lemma_lex_total(a.name, b.name);
    lemma_lex_total(a.url, b.url);
}

/// The order on assets is transitive.
pub proof fn lemma_asset_order_transitive(a: AssetView, b: AssetView, c: AssetView)
    requires
        asset_lt(a, b),
        asset_lt(b, c),
    ensures
        asset_lt(a, c),
{
    if lex_lt(a.name, b.name) && lex_lt(b.name, c.name) {
        lemma_lex_transitive(a.name, b.name, c.name);
    }
    if lex_lt(a.url, b.url) && lex_lt(b.url, c.url) {
        lemma_lex_transitive(a.url, b.url, c.url);
    }
}

} // verus!
