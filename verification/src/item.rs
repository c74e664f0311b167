//! The item type model: the closed set of item kinds carried on the wire,
//! their dispatch categories, and the listing entry itself.

use vstd::prelude::*;

verus! {

/// The closed set of item kinds, one per one-letter wire code.
#[derive(Clone, Copy, Debug, PartialEq, Eq, Structural)]
pub enum ItemKind {
    /// `0`: plain text.
    PlainText,
    /// `1`: a directory, fetched as another listing.
    Directory,
    /// `2`: a name/query directory service (kept only as an unsupported stub).
    NameQuery,
    /// `3`: an error entry.
    Error,
    /// `4`: binary encoded for legacy Mac systems.
    MacEncoded,
    /// `5`: a DOS binary.
    DosBinary,
    /// `6`: a uuencoded file.
    Uuencoded,
    /// `7`: a full-text search service, which prompts for a query.
    Search,
    /// `8`: an interactive text session on another host.
    Interactive,
    /// `9`: a generic binary.
    Binary,
    /// `+`: a mirror or redundant server, fetched as another listing.
    Mirror,
    /// `g`: a GIF image.
    Gif,
    /// `I`: a generic image.
    Image,
    /// `p`: a PNG image.
    Png,
    /// `j`: a JPEG image.
    Jpeg,
    /// `h`: a hypertext document.
    Html,
    /// `i`: an informational message.
    Info,
}

/// The fixed wire mapping from a one-letter code to an item kind.
pub open spec fn kind_of_code(c: char) -> Option<ItemKind> {
    match c {
        '0' => Some(ItemKind::PlainText),
        '1' => Some(ItemKind::Directory),
        '2' => Some(ItemKind::NameQuery),
        '3' => Some(ItemKind::Error),
        '4' => Some(ItemKind::MacEncoded),
        '5' => Some(ItemKind::DosBinary),
        '6' => Some(ItemKind::Uuencoded),
        '7' => Some(ItemKind::Search),
        '8' => Some(ItemKind::Interactive),
        '9' => Some(ItemKind::Binary),
        '+' => Some(ItemKind::Mirror),
        'g' => Some(ItemKind::Gif),
        'I' => Some(ItemKind::Image),
        'p' => Some(ItemKind::Png),
        'j' => Some(ItemKind::Jpeg),
        'h' => Some(ItemKind::Html),
        'i' => Some(ItemKind::Info),
        _ => None,
    }
}

impl ItemKind {
    /// Decodes a wire code, failing on any character outside the closed set.
    pub fn try_from(c: char) -> (r: Option<ItemKind>)
        ensures
            r == kind_of_code(c),
    {
        match c {
            '0' => Some(ItemKind::PlainText),
            '1' => Some(ItemKind::Directory),
            '2' => Some(ItemKind::NameQuery),
            '3' => Some(ItemKind::Error),
            '4' => Some(ItemKind::MacEncoded),
            '5' => Some(ItemKind::DosBinary),
            '6' => Some(ItemKind::Uuencoded),
            '7' => Some(ItemKind::Search),
            '8' => Some(ItemKind::Interactive),
            '9' => Some(ItemKind::Binary),
            '+' => Some(ItemKind::Mirror),
            'g' => Some(ItemKind::Gif),
            'I' => Some(ItemKind::Image),
            'p' => Some(ItemKind::Png),
            'j' => Some(ItemKind::Jpeg),
            'h' => Some(ItemKind::Html),
            'i' => Some(ItemKind::Info),
            _ => None,
        }
    }

    /// A container kind is fetched and parsed as another listing.
    pub open spec fn is_container(self) -> bool {
        self is Directory || self is Mirror
    }

    /// An informational kind carries no destination; it is never dispatched.
    pub open spec fn is_informational(self) -> bool {
        self is Info || self is Error
    }

    /// A service kind is handed to an external collaborator.
    pub open spec fn is_service(self) -> bool {
        self is NameQuery || self is Search || self is Interactive
    }

    /// A content kind is fetched and handed to a content handler.
    pub open spec fn is_content(self) -> bool {
        !self.is_container() && !self.is_informational() && !self.is_service()
    }
}

/// One entry of a parsed listing.  Every field comes from a well-formed
/// response line, and the value is never mutated once constructed.
#[derive(Debug, PartialEq, Eq)]
pub struct Item {
    /// The entry's kind, from the closed set above.
    pub kind: ItemKind,
    /// The human-readable label shown to the user.
    pub display: String,
    /// The opaque string sent back to a server to fetch this entry.
    pub selector: String,
    /// The host owning this entry, which may differ from the listing's own.
    pub host: String,
    /// The port of the owning host.
    pub port: u16,
}

/// The mathematical value of an [`Item`].
#[verifier::ext_equal]
pub ghost struct ItemView {
    pub kind: ItemKind,
    pub display: Seq<char>,
    pub selector: Seq<char>,
    pub host: Seq<char>,
    pub port: u16,
}

impl View for Item {
    type V = ItemView;

    open spec fn view(&self) -> ItemView {
        ItemView {
            kind: self.kind,
            display: self.display@,
            selector: self.selector@,
            host: self.host@,
            port: self.port,
        }
    }
}

impl Clone for Item {
    /// A clone carries exactly the same fields.
    fn clone(&self) -> (r: Self)
        ensures
            r == *self,
    {
        Item {
            kind: self.kind,
            display: self.display.clone(),
            selector: self.selector.clone(),
            host: self.host.clone(),
            port: self.port,
        }
    }
}

} // verus!
