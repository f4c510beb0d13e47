//! The image catalog: the ordered list of images of the directory that is
//! open, each with its review status. An image is known by its position.

use vstd::prelude::*;
use vstd::string::{StrSliceExecFns, StringExecFns};

verus! {

/// Review status of an image.
#[derive(Debug, Clone, Copy, PartialEq, Eq, Structural)]
pub enum CullState {
    Pending,
    Keep,
    Delete,
}

/// A vote on an image.
#[derive(Debug, Clone, Copy, PartialEq, Eq, Structural)]
pub enum VoteAction {
    Keep,
    Delete,
}

/// One image of the catalog: its file name and its review status.
#[derive(Debug, Clone)]
pub struct ImageInfo {
    pub basename: String,
    pub status: CullState,
}

/// An image as a mathematical value.
pub struct ImageItem {
    pub basename: Seq<char>,
    pub status: CullState,
}

impl View for ImageInfo {
    type V = ImageItem;

    open spec fn view(&self) -> ImageItem {
        ImageItem { basename: self.basename@, status: self.status }
    }
}

/// Where the file of an image is found: the directory and the name in it.
#[derive(Debug, Clone)]
pub struct ImageSource {
    pub dir: String,
    pub basename: String,
}

/// Why the catalog could not do what was asked.
#[derive(Debug, Clone, Copy, PartialEq, Eq, Structural)]
pub enum CatalogError {
    /// The catalog has no image at the position.
    IndexOutOfRange,
}

impl CatalogError {
    /// The message for the user.
    pub fn message(&self) -> (text: String)
        ensures
            text@ == "Image index out of bounds."@,
    {
        String::from_str("Image index out of bounds.")
    }
}

/// The status that a vote gives an image, whatever its status was.
pub open spec fn status_after(action: VoteAction) -> CullState {
    match action {
        VoteAction::Keep => CullState::Keep,
        VoteAction::Delete => CullState::Delete,
    }
}

/// The status that a vote gives an image. A vote never leads back to
/// `Pending`.
pub fn apply_vote(action: VoteAction) -> (status: CullState)
    ensures
        status == status_after(action),
        status != CullState::Pending,
{
    match action {
        VoteAction::Keep => CullState::Keep,
        VoteAction::Delete => CullState::Delete,
    }
}

/// The images of one directory in a fixed order.
pub struct Catalog {
    items: Vec<ImageInfo>,
    source_dir: String,
}

/// The items of a catalog as mathematical values.
pub open spec fn items_of(items: Seq<ImageInfo>) -> Seq<ImageItem> {
    items.map_values(|info: ImageInfo| info@)
}

impl Catalog {
    /// The images in catalog order.
    pub closed spec fn items(&self) -> Seq<ImageItem> {
        items_of(self.items@)
    }

    /// The directory that holds the images.
    pub closed spec fn source_dir(&self) -> Seq<char> {
        self.source_dir@
    }

    /// A catalog without images and without a directory.
    pub fn new() -> (catalog: Catalog)
        ensures
            catalog.items() == Seq::<ImageItem>::empty(),
            catalog.source_dir() == Seq::<char>::empty(),
    {
        let catalog = Catalog { items: Vec::new(), source_dir: String::new() };
        assert(catalog.items() =~= Seq::<ImageItem>::empty());
        catalog
    }

    /// The number of images.
    pub fn len(&self) -> (n: usize)
        ensures
            n == self.items().len(),
    {
        self.items.len()
    }

    /// The image at a position, if the catalog has that position.
    pub fn get(&self, index: usize) -> (found: Option<ImageInfo>)
        ensures
            match found {
                Some(info) => index < self.items().len() && info@ == self.items()[index as int],
                None => index >= self.items().len(),
            },
    {
        if index < self.items.len() {
            let info = &self.items[index];
            Some(ImageInfo { basename: info.basename.clone(), status: info.status })
        } else {
            None
        }
    }

    /// Resolves a position to the place of its file: the directory of the
    /// catalog and the name of the image. A position out of range is an
    /// error.
    pub fn resolve(&self, index: usize) -> (found: Result<ImageSource, CatalogError>)
        ensures
            match found {
                Ok(source) => {
                    &&& index < self.items().len()
                    &&& source.dir@ == self.source_dir()
                    &&& source.basename@ == self.items()[index as int].basename
                },
                Err(error) => index >= self.items().len() && error == CatalogError::IndexOutOfRange,
            },
    {
        if index < self.items.len() {
            Ok(
                ImageSource {
                    dir: self.source_dir.clone(),
                    basename: self.items[index].basename.clone(),
                },
            )
        } else {
            Err(CatalogError::IndexOutOfRange)
        }
    }

    /// Records a vote on the image at a position. The vote sets the status of
    /// that image and leaves everything else as it was; a position out of
    /// range changes nothing and is an error.
    pub fn vote(&mut self, index: usize, action: VoteAction) -> (done: Result<(), CatalogError>)
        ensures
            done is Ok == (index < old(self).items().len()),
            final(self).source_dir() == old(self).source_dir(),
            done is Ok ==> final(self).items() == old(self).items().update(
                index as int,
                ImageItem {
                    basename: old(self).items()[index as int].basename,
                    status: status_after(action),
                },
            ),
            done is Err ==> final(self).items() == old(self).items(),
    {
        if index < self.items.len() {
            let basename = self.items[index].basename.clone();
            let voted = ImageInfo { basename, status: apply_vote(action) };
            self.items.set(index, voted);
            assert(self.items() =~= old(self).items().update(
                index as int,
                ImageItem {
                    basename: old(self).items()[index as int].basename,
                    status: status_after(action),
                },
            ));
            Ok(())
        } else {
            Err(CatalogError::IndexOutOfRange)
        }
    }

    /// The window title for the image at a position: the application's name,
    /// a dash and the file name. `None` if the position is out of range.
    pub fn title_for(&self, index: usize) -> (title: Option<String>)
        ensures
            match title {
                Some(text) => index < self.items().len() && text@ == "KullFlow - "@
                    + self.items()[index as int].basename,
                None => index >= self.items().len(),
            },
    {
        if index < self.items.len() {
            let mut text = String::from_str("KullFlow - ");
            text.append(self.items[index].basename.as_str());
            Some(text)
        } else {
            None
        }
    }
}

/// One entry of a directory as the file system reported it: its name, if the
/// name is valid UTF-8, and whether it is a regular file.
#[derive(Debug, Clone)]
pub struct DirEntryInfo {
    pub name: Option<String>,
    pub is_file: bool,
}

/// Where the last full stop of a name stands, or -1 if it has none.
pub open spec fn last_dot(name: Seq<char>) -> int
    decreases name.len(),
{
    if name.len() == 0 {
        -1
    } else if name.last() == '.' {
        name.len() - 1
    } else {
        last_dot(name.drop_last())
    }
}

/// The extension of a file name: what follows its last full stop. A name
/// without a full stop has none, nor has one whose only full stop is its
/// first character, nor has the name `..`.
pub open spec fn extension_of(name: Seq<char>) -> Option<Seq<char>> {
    if last_dot(name) <= 0 || name == seq!['.', '.'] {
        None
    } else {
        Some(name.skip(last_dot(name) + 1))
    }
}

/// The top-level media type that the table of media types gives for an
/// extension, as `image` for `png`; `application` where it knows none.
pub uninterp spec fn top_level_type(extension: Seq<char>) -> Seq<char>;

/// `mime_guess::from_ext(..).first_or_octet_stream().type_()`: looks an
/// extension up in the crate's table of media types, whatever its case, and
/// gives the top-level type of the first entry, or that of
/// `application/octet-stream` where there is none.
#[verifier::external_body]
fn guess_top_level_type(extension: &str) -> (top: String)
    ensures
        top@ == top_level_type(extension@),
{
    mime_guess::from_ext(extension).first_or_octet_stream().type_().as_str().to_string()
}

/// The last full stop of `name` stands at `at`, or there is none and `at` is
/// -1.
proof fn lemma_last_dot(name: Seq<char>, at: int)
    requires
        -1 <= at < name.len(),
        at >= 0 ==> name[at] == '.',
        forall|k: int| at < k < name.len() ==> name[k] != '.',
    ensures
        last_dot(name) == at,
    decreases name.len(),
{
    if name.len() > 0 && name.last() != '.' {
        lemma_last_dot(name.drop_last(), at);
    }
}

/// The extension of a file name.
fn extension(name: &str) -> (found: Option<&str>)
    ensures
        match found {
            Some(text) => extension_of(name@) == Some(text@),
            None => extension_of(name@) is None,
        },
{
    let n = name.unicode_len();
    let mut i: usize = n;
    while i > 0
        invariant
            i <= n,
            n == name@.len(),
            forall|k: int| i <= k < n ==> name@[k] != '.',
        decreases i,
    {
        if name.get_char(i - 1) == '.' {
            proof {
                lemma_last_dot(name@, i - 1);
            }
            if i == 1 {
                return None;
            }
            if n == 2 && name.get_char(0) == '.' {
                assert(name@ =~= seq!['.', '.']);
                return None;
            }
            assert(name@ != seq!['.', '.']) by {
                if name@ == seq!['.', '.'] {
                    assert(name@.len() == 2);
                    assert(name@[0] == '.');
                }
            }
            let text = name.substring_char(i, n);
            assert(text@ =~= name@.skip(i as int));
            return Some(text);
        }
        i = i - 1;
    }
    proof {
        lemma_last_dot(name@, -1);
    }
    None
}

/// The entry is listed in the catalog: a regular file with a UTF-8 name whose
/// extension is that of an image format.
pub open spec fn is_listed(entry: DirEntryInfo) -> bool {
    &&& entry.is_file
    &&& entry.name matches Some(name)
    &&& extension_of(name@) matches Some(text)
    &&& top_level_type(text) == "image"@
}

/// Whether a file name has the extension of an image format.
fn names_image(name: &str) -> (image: bool)
    ensures
        image == (extension_of(name@) matches Some(text) && top_level_type(text) == "image"@),
{
    match extension(name) {
        Some(text) => {
            let top = guess_top_level_type(text);
            top == String::from_str("image")
        },
        None => false,
    }
}

/// The catalog items that a directory listing gives: the listed entries in
/// their order, each pending review.
pub open spec fn listing(entries: Seq<DirEntryInfo>) -> Seq<ImageItem>
    decreases entries.len(),
{
    if entries.len() == 0 {
        Seq::empty()
    } else if is_listed(entries.last()) {
        listing(entries.drop_last()).push(
            ImageItem { basename: entries.last().name->0@, status: CullState::Pending },
        )
    } else {
        listing(entries.drop_last())
    }
}

impl Catalog {
    /// Replaces the catalog by the images of a directory: of the entries
    /// given, the listed ones in their order, each pending review. Returns
    /// their number.
    pub fn load(&mut self, dir: &str, entries: &Vec<DirEntryInfo>) -> (count: usize)
        ensures
            final(self).items() == listing(entries@),
            final(self).source_dir() == dir@,
            count == final(self).items().len(),
    {
        let mut items: Vec<ImageInfo> = Vec::new();
        let mut i: usize = 0;
        assert(entries@.take(0) =~= Seq::<DirEntryInfo>::empty());
        assert(items_of(items@) =~= listing(entries@.take(0)));
        while i < entries.len()
            invariant
                i <= entries@.len(),
                items_of(items@) == listing(entries@.take(i as int)),
            decreases entries@.len() - i,
        {
            let entry = &entries[i];
            let ghost seen = entries@.take(i + 1);
            let ghost before = items@;
            proof {
                assert(seen.drop_last() =~= entries@.take(i as int));
                assert(seen.last() == *entry);
            }
            let mut listed = false;
            if entry.is_file {
                if let Some(name) = &entry.name {
                    if names_image(name.as_str()) {
                        items.push(
                            ImageInfo { basename: name.clone(), status: CullState::Pending },
                        );
                        listed = true;
                    }
                }
            }
            proof {
                assert(listed == is_listed(*entry));
                if listed {
                    assert(items_of(items@) =~= items_of(before).push(
                        ImageItem { basename: entry.name->0@, status: CullState::Pending },
                    ));
                }
            }
            i = i + 1;
        }
        assert(entries@.take(i as int) =~= entries@);
        self.items = items;
        self.source_dir = String::from_str(dir);
        self.items.len()
    }
}

} // verus!
