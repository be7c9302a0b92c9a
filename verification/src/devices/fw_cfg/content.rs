//! What is behind a selector.
use vstd::prelude::*;

verus! {

/// What can go wrong.
#[derive(Clone, Copy, Debug, PartialEq, Eq, Structural)]
pub enum FwCfgError {
    /// A piece of data is too large.
    InvalidInput,
    /// There is a file of that name.
    AlreadyExists,
    /// A file is shorter than what has to be in it.
    UnexpectedEof,
}

/// A piece of data.
#[derive(Debug)]
pub enum FwCfgContent {
    Bytes(Vec<u8>),
    Slice(&'static [u8]),
    /// An open file, by its number, from an offset to its end.
    File { file: u64, offset: u64, len: u64 },
    U32(u32),
}

/// A piece of data as values.
pub enum ContentView {
    Data(Seq<u8>),
    Word(u32),
    File { file: u64, offset: u64, len: u64 },
}

impl ContentView {
    /// Number of bytes.
    pub open spec fn size(&self) -> int {
        match *self {
            ContentView::Data(b) => b.len() as int,
            ContentView::Word(_) => 4,
            ContentView::File { offset, len, .. } => len - offset,
        }
    }

    /// A file starts before its end, and is no longer than files can be.
    pub open spec fn ok(&self) -> bool {
        match *self {
            ContentView::File { offset, len, .. } => offset <= len <= 0x7fff_ffff_ffff_ffff,
            _ => true,
        }
    }

    /// The bytes, where they are not in a file.
    pub open spec fn bytes(&self) -> Seq<u8> {
        match *self {
            ContentView::Data(b) => b,
            ContentView::Word(n) => crate::bytes::u32_le(n),
            ContentView::File { .. } => Seq::empty(),
        }
    }
}

impl View for FwCfgContent {
    type V = ContentView;

    open spec fn view(&self) -> ContentView {
        match *self {
            FwCfgContent::Bytes(b) => ContentView::Data(b@),
            FwCfgContent::Slice(s) => ContentView::Data(s@),
            FwCfgContent::File { file, offset, len } => ContentView::File { file, offset, len },
            FwCfgContent::U32(n) => ContentView::Word(n),
        }
    }
}

impl Default for FwCfgContent {
    fn default() -> (r: Self)
        ensures
            r@ == ContentView::Data(Seq::empty()),
    {
        FwCfgContent::Bytes(Vec::new())
    }
}

impl FwCfgContent {
    /// Number of bytes, which has to fit 32 bits.
    pub fn size(&self) -> (r: Result<u32, FwCfgError>)
        requires
            self@.ok(),
        ensures
            r == if self@.size() <= u32::MAX {
                Ok::<u32, FwCfgError>(self@.size() as u32)
            } else {
                Err(FwCfgError::InvalidInput)
            },
    {
        let n: u64 = match self {
            FwCfgContent::Bytes(v) => v.len() as u64,
            FwCfgContent::File { offset, len, .. } => *len - *offset,
            FwCfgContent::Slice(s) => s.len() as u64,
            FwCfgContent::U32(_) => 4,
        };
        if n <= 0xffff_ffff {
            Ok(n as u32)
        } else {
            Err(FwCfgError::InvalidInput)
        }
    }
}

/// A file.
#[derive(Debug)]
pub struct FwCfgItem {
    pub name: String,
    pub content: FwCfgContent,
}

/// A file as values.
pub struct ItemView {
    pub name: Seq<char>,
    pub content: ContentView,
}

impl View for FwCfgItem {
    type V = ItemView;

    open spec fn view(&self) -> ItemView {
        ItemView { name: self.name@, content: self.content@ }
    }
}

impl Default for FwCfgItem {
    fn default() -> (r: Self)
        ensures
            r@ == (ItemView { name: Seq::empty(), content: ContentView::Data(Seq::empty()) }),
    {
        let r = FwCfgItem { name: String::new(), content: FwCfgContent::default() };
        assert(r.name@ =~= Seq::empty());
        r
    }
}

impl FwCfgItem {
    /// A file that is held in memory.
    pub fn of_bytes(name: &str, bytes: Vec<u8>) -> (r: Self)
        ensures
            r@ == (ItemView { name: name@, content: ContentView::Data(bytes@) }),
    {
        FwCfgItem { name: name.to_owned(), content: FwCfgContent::Bytes(bytes) }
    }

    /// A file on disk, from its start.
    pub fn of_file(name: &str, file: u64, len: u64) -> (r: Self)
        ensures
            r@ == (ItemView { name: name@, content: ContentView::File { file, offset: 0, len } }),
    {
        FwCfgItem { name: name.to_owned(), content: FwCfgContent::File { file, offset: 0, len } }
    }
}

} // verus!
