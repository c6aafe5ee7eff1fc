//! Chunks of data and the files that they are stored in.
use std::cmp::Ordering;
use vstd::laws_cmp::{
    obeys_cmp, obeys_cmp_ord, obeys_cmp_partial_ord, obeys_partial_cmp_spec_properties,
};
use vstd::laws_eq::obeys_eq_spec_properties;
use vstd::prelude::*;
use vstd::std_specs::cmp::{OrdSpec, PartialOrdSpec};
use crate::date::Date;
use crate::errors::{ChunkError, FileError};
use crate::paths::{join_path, joined, joins, path_of, path_text, text_of};

verus! {

/// Where the files of a dataset go.
#[derive(Debug)]
pub struct FileOutput {
    /// Directory of the files.
    pub output_dir: std::path::PathBuf,
    /// First part of each file name: the name of the network.
    pub prefix: String,
    /// Last part of each file name, before the extension.
    pub suffix: Option<String>,
    /// Format of the files, as their extension.
    pub format: String,
}

/// What comparing items of the type gives is known.
pub open spec fn comparable<I: Ord>() -> bool {
    I::obeys_cmp_spec()
}

/// The lesser of two items, where both are there; the first of two that are equal.
pub open spec fn lesser<I: Ord>(a: Option<I>, b: Option<I>) -> Option<I> {
    match (a, b) {
        (Some(x), Some(y)) => if x.cmp_spec(&y) == Ordering::Greater {
            b
        } else {
            a
        },
        (Some(_), None) => a,
        (None, _) => b,
    }
}

/// The greater of two items, where both are there; the second of two that are equal.
pub open spec fn greater<I: Ord>(a: Option<I>, b: Option<I>) -> Option<I> {
    match (a, b) {
        (Some(x), Some(y)) => if x.cmp_spec(&y) == Ordering::Greater {
            a
        } else {
            b
        },
        (Some(_), None) => a,
        (None, _) => b,
    }
}

/// The least of the items that are given, the first of those that are equal.
pub open spec fn least_given<I: Ord>(given: Seq<Option<I>>) -> Option<I>
    decreases given.len(),
{
    if given.len() == 0 {
        None
    } else {
        lesser(least_given(given.drop_last()), given.last())
    }
}

/// The greatest of the items that are given, the last of those that are equal.
pub open spec fn greatest_given<I: Ord>(given: Seq<Option<I>>) -> Option<I>
    decreases given.len(),
{
    if given.len() == 0 {
        None
    } else {
        greater(greatest_given(given.drop_last()), given.last())
    }
}

/// `item` is one of the items that are given, or none where none is given.
pub open spec fn one_given<I>(given: Seq<Option<I>>, item: Option<I>) -> bool {
    match item {
        Some(_) => given.contains(item),
        None => forall|i: int| 0 <= i < given.len() ==> (#[trigger] given[i]) is None,
    }
}

/// `item` is picked as the least of the items that are given.
pub open spec fn picked_least<I: Ord>(given: Seq<Option<I>>, item: Option<I>) -> bool {
    &&& one_given(given, item)
    &&& comparable::<I>() ==> item == least_given(given)
}

/// `item` is picked as the greatest of the items that are given.
pub open spec fn picked_greatest<I: Ord>(given: Seq<Option<I>>, item: Option<I>) -> bool {
    &&& one_given(given, item)
    &&& comparable::<I>() ==> item == greatest_given(given)
}

/// One more item: that picked before it stays, or the new one takes its place.
proof fn lemma_one_more_given<I>(
    given: Seq<Option<I>>,
    before: Option<I>,
    item: Option<I>,
    after: Option<I>,
)
    requires
        one_given(given, before),
        after == before || after == item,
        after is None ==> before is None && item is None,
    ensures
        one_given(given.push(item), after),
{
    let more = given.push(item);
    if after is Some {
        if after == item {
            assert(more[given.len() as int] == after);
        } else {
            let i = choose|i: int| 0 <= i < given.len() && given[i] == before;
            assert(more[i] == after);
        }
    }
}

/// Picks the lesser of two items.
fn pick_lesser<I: Ord>(a: Option<I>, b: Option<I>) -> (r: Option<I>)
    ensures
        r == a || r == b,
        r is None ==> a is None && b is None,
        comparable::<I>() ==> r == lesser(a, b),
{
    match (a, b) {
        (Some(x), Some(y)) => match x.cmp(&y) {
            Ordering::Greater => Some(y),
            _ => Some(x),
        },
        (Some(x), None) => Some(x),
        (None, y) => y,
    }
}

/// Picks the greater of two items.
fn pick_greater<I: Ord>(a: Option<I>, b: Option<I>) -> (r: Option<I>)
    ensures
        r == a || r == b,
        r is None ==> a is None && b is None,
        comparable::<I>() ==> r == greater(a, b),
{
    match (a, b) {
        (Some(x), Some(y)) => match x.cmp(&y) {
            Ordering::Greater => Some(x),
            _ => Some(y),
        },
        (Some(x), None) => Some(x),
        (None, y) => y,
    }
}

/// The text that a first and a last item make, where there are both.
pub open spec fn range_text<I>(
    min: Option<I>,
    max: Option<I>,
    text: spec_fn(I) -> Seq<char>,
) -> Option<Seq<char>> {
    match (min, max) {
        (Some(min), Some(max)) => Some(text(min) + "_to_"@ + text(max)),
        _ => None,
    }
}

/// `stub` can stand for a chunk that lies in the date, if any, with such least and greatest items:
/// it is the date, or else made of the two items. Without these nothing stands for the chunk.
pub open spec fn stands_for<I>(
    date: Option<Date>,
    least: spec_fn(Option<I>) -> bool,
    greatest: spec_fn(Option<I>) -> bool,
    text: spec_fn(I) -> Seq<char>,
    stub: Option<Seq<char>>,
) -> bool {
    match date {
        Some(date) => stub == Some(date.text()),
        None => exists|min: Option<I>, max: Option<I>| #[trigger]
            least(min) && #[trigger] greatest(max) && stub == range_text(min, max, text),
    }
}

/// The name of a file.
pub open spec fn file_name(
    prefix: Seq<char>,
    name: Seq<char>,
    stub: Seq<char>,
    suffix: Option<Seq<char>>,
    format: Seq<char>,
) -> Seq<char> {
    prefix + "__"@ + name + "__"@ + stub + match suffix {
        Some(suffix) => "__"@ + suffix,
        None => seq![],
    } + "."@ + format
}

impl FileOutput {
    /// The name of the file for a chunk.
    pub open spec fn file_name(self, name: Seq<char>, stub: Seq<char>) -> Seq<char> {
        file_name(
            self.prefix@,
            name,
            stub,
            match self.suffix {
                Some(suffix) => Some(suffix@),
                None => None,
            },
            self.format@,
        )
    }

    /// Makes an output whose directory has the given name.
    pub fn in_dir(dir: &str, prefix: String, suffix: Option<String>, format: String) -> (r: Self)
        ensures
            path_text(r.output_dir) == Some(dir@),
            r.prefix == prefix,
            r.suffix == suffix,
            r.format == format,
    {
        FileOutput { output_dir: path_of(dir), prefix, suffix, format }
    }
}

/// Assembles the name of a file.
fn build_file_name(
    prefix: &str,
    name: &str,
    stub: &str,
    suffix: &Option<String>,
    format: &str,
) -> (r: String)
    ensures
        r@ == file_name(
            prefix@,
            name@,
            stub@,
            match *suffix {
                Some(suffix) => Some(suffix@),
                None => None,
            },
            format@,
        ),
{
    let mut file: String = prefix.to_owned();
    file.append("__");
    file.append(name);
    file.append("__");
    file.append(stub);
    if let Some(suffix) = suffix {
        file.append("__");
        file.append(suffix.as_str());
    }
    file.append(".");
    file.append(format);
    assert(file@ =~= file_name(
        prefix@,
        name@,
        stub@,
        match *suffix {
            Some(suffix) => Some(suffix@),
            None => None,
        },
        format@,
    ));
    file
}

/// What comes of a path: its text, or an error where it has none.
pub open spec fn path_outcome(path: Option<Seq<char>>, r: Result<String, FileError>) -> bool {
    match path {
        Some(path) => r matches Ok(text) && text@ == path,
        None => r matches Err(FileError::NoFilePathError(text)) && text@
            == "output dir invalid"@,
    }
}

/// Takes a path that is text, and refuses one that is not.
pub fn valid_path(path: Option<String>) -> (r: Result<String, FileError>)
    ensures
        path_outcome(
            match path {
                Some(path) => Some(path@),
                None => None,
            },
            r,
        ),
        path is Some ==> r is Ok && r->Ok_0@ == path->0@,
        path is None ==> (r matches Err(FileError::NoFilePathError(text)) && text@
            == "output dir invalid"@),
{
    match path {
        Some(path) => Ok(path),
        None => Err(FileError::NoFilePathError("output dir invalid".to_owned())),
    }
}

/// What comes of a file in a directory: the text of its path, of which some is known.
pub open spec fn placed(
    dir: std::path::PathBuf,
    file: Seq<char>,
    r: Result<String, FileError>,
) -> bool {
    &&& joins(path_text(dir), file, path_text(joined(dir, file)))
    &&& path_outcome(path_text(joined(dir, file)), r)
}

/// What comes of the file for a chunk that `stub` stands for. Where nothing does, the chunk is not
/// valid.
pub open spec fn stored(
    output: FileOutput,
    name: Seq<char>,
    stub: Option<Seq<char>>,
    r: Result<String, FileError>,
) -> bool {
    match stub {
        Some(stub) => placed(output.output_dir, output.file_name(name, stub), r),
        None => r == Err::<String, FileError>(FileError::FilePathError(ChunkError::InvalidChunk)),
    }
}

/// Common methods of chunks. What a type says of its items, its methods are held to; of a type that
/// says nothing, nothing is known.
pub trait ChunkData: Sized {
    /// Type of the items in a chunk.
    type Inner: Ord;

    /// The text of an item.
    open spec fn item_text(value: Self::Inner) -> Seq<char> {
        arbitrary()
    }

    /// Number of items.
    open spec fn item_count(&self) -> nat {
        arbitrary()
    }

    /// `item` can be the least item, or none where the chunk has none.
    open spec fn may_be_least(&self, item: Option<Self::Inner>) -> bool {
        arbitrary()
    }

    /// `item` can be the greatest item, or none where the chunk has none.
    open spec fn may_be_greatest(&self, item: Option<Self::Inner>) -> bool {
        arbitrary()
    }

    /// The date that the chunk's data lies in.
    open spec fn day(&self) -> Option<Date> {
        arbitrary()
    }

    /// Writes a single item of a chunk.
    fn format_item(value: Self::Inner) -> (r: String)
        ensures
            r@ == Self::item_text(value),
    ;

    /// Size of the chunk.
    fn size(&self) -> (r: u64)
        requires
            self.item_count() <= u64::MAX,
        ensures
            r == self.item_count(),
    ;

    /// Least item of the chunk.
    fn min_value(&self) -> (r: Option<Self::Inner>)
        ensures
            self.may_be_least(r),
    ;

    /// Greatest item of the chunk.
    fn max_value(&self) -> (r: Option<Self::Inner>)
        ensures
            self.may_be_greatest(r),
    ;

    /// Date that the data of the chunk is contained in.
    fn date(&self) -> (r: Option<&Date>)
        ensures
            match r {
                Some(date) => self.day() == Some(*date),
                None => self.day() is None,
            },
    ;

    /// Writes the text that stands for the chunk.
    fn stub(&self) -> (r: Result<String, ChunkError>)
        ensures
            stands_for(
                self.day(),
                |item: Option<Self::Inner>| self.may_be_least(item),
                |item: Option<Self::Inner>| self.may_be_greatest(item),
                |value: Self::Inner| Self::item_text(value),
                match r {
                    Ok(stub) => Some(stub@),
                    Err(_) => None,
                },
            ),
            r matches Err(e) ==> e == ChunkError::InvalidChunk,
            self.day() is Some ==> r is Ok && r->Ok_0@ == self.day()->0.text(),
            self.day() is None ==> exists|min: Option<Self::Inner>, max: Option<Self::Inner>|
                {
                    &&& #[trigger] self.may_be_least(min)
                    &&& #[trigger] self.may_be_greatest(max)
                    &&& r is Ok <==> min is Some && max is Some
                    &&& r is Ok ==> r->Ok_0@ == Self::item_text(min->0) + "_to_"@
                        + Self::item_text(max->0)
                },
    {
        if let Some(date) = self.date() {
            return Ok(date.to_text());
        }
        let (min, max) = (self.min_value(), self.max_value());
        proof {
            let least = |item: Option<Self::Inner>| self.may_be_least(item);
            let greatest = |item: Option<Self::Inner>| self.may_be_greatest(item);
            assert(least(min) && greatest(max));
            assert(self.may_be_least(min) && self.may_be_greatest(max));
        }
        match (min, max) {
            (Some(min), Some(max)) => {
                let mut text = Self::format_item(min);
                text.append("_to_");
                let max_text = Self::format_item(max);
                text.append(max_text.as_str());
                Ok(text)
            },
            _ => Err(ChunkError::InvalidChunk),
        }
    }

    /// Names the file that the chunk is stored in.
    fn filepath(&self, name: &str, file_output: &FileOutput, chunk_label: &Option<String>) -> (r:
        Result<String, FileError>)
        ensures
            exists|stub: Option<Seq<char>>|
                {
                    &&& match *chunk_label {
                        Some(label) => stub == Some(label@),
                        None => stands_for(
                            self.day(),
                            |item: Option<Self::Inner>| self.may_be_least(item),
                            |item: Option<Self::Inner>| self.may_be_greatest(item),
                            |value: Self::Inner| Self::item_text(value),
                            stub,
                        ),
                    }
                    &&& #[trigger] stored(*file_output, name@, stub, r)
                },
    {
        let stub = match chunk_label {
            Some(chunk_label) => chunk_label.clone(),
            None => match self.stub() {
                Ok(stub) => stub,
                Err(e) => {
                    let invalid: Result<String, FileError> = Err(FileError::FilePathError(e));
                    assert(stored(*file_output, name@, None, invalid));
                    return invalid;
                },
            },
        };
        let file = build_file_name(
            file_output.prefix.as_str(),
            name,
            stub.as_str(),
            &file_output.suffix,
            file_output.format.as_str(),
        );
        let path = join_path(&file_output.output_dir, file.as_str());
        let placed_at = valid_path(text_of(&path));
        assert(stored(*file_output, name@, Some(stub@), placed_at));
        placed_at
    }
}

/// `stub` can stand for the chunk.
pub open spec fn may_be_named<C: ChunkData>(chunk: C, stub: Option<Seq<char>>) -> bool {
    stands_for(
        chunk.day(),
        |item: Option<C::Inner>| chunk.may_be_least(item),
        |item: Option<C::Inner>| chunk.may_be_greatest(item),
        |value: C::Inner| C::item_text(value),
        stub,
    )
}

/// `file` can be the name of the file for the chunk: it rests on the label, or else on what can
/// stand for the chunk. Where nothing does, there is no file.
pub open spec fn may_be_file<C: ChunkData>(
    chunk: C,
    name: Seq<char>,
    output: FileOutput,
    label: Option<Seq<char>>,
    file: Option<Seq<char>>,
) -> bool {
    match label {
        Some(label) => file == Some(output.file_name(name, label)),
        None => exists|stub: Option<Seq<char>>|
            {
                &&& #[trigger] may_be_named(chunk, stub)
                &&& file == match stub {
                    Some(stub) => Some(output.file_name(name, stub)),
                    None => None,
                }
            },
    }
}

/// `r` can come of the file for the chunk.
pub open spec fn may_be_stored<C: ChunkData>(
    chunk: C,
    name: Seq<char>,
    output: FileOutput,
    label: Option<Seq<char>>,
    r: Result<String, FileError>,
) -> bool {
    exists|stub: Option<Seq<char>>|
        {
            &&& match label {
                Some(label) => stub == Some(label),
                None => may_be_named(chunk, stub),
            }
            &&& #[trigger] stored(output, name, stub, r)
        }
}

/// The two outcomes are the same: the same path, or the same error.
pub open spec fn alike(a: Result<String, FileError>, b: Result<String, FileError>) -> bool {
    match (a, b) {
        (Ok(a), Ok(b)) => a@ == b@,
        (
            Err(FileError::NoFilePathError(a)),
            Err(FileError::NoFilePathError(b)),
        ) => a@ == b@,
        (Err(a), Err(b)) => a == b,
        _ => false,
    }
}

/// Number of items in a list of chunks.
pub open spec fn total_count<T: ChunkData>(chunks: Seq<T>) -> nat
    decreases chunks.len(),
{
    if chunks.len() == 0 {
        0
    } else {
        total_count(chunks.drop_last()) + chunks.last().item_count()
    }
}

/// Each chunk can give the item that is listed for it as its least.
pub open spec fn give_least<T: ChunkData>(chunks: Seq<T>, given: Seq<Option<T::Inner>>) -> bool {
    &&& given.len() == chunks.len()
    &&& forall|i: int|
        #![trigger chunks[i]]
        #![trigger given[i]]
        0 <= i < chunks.len() ==> chunks[i].may_be_least(given[i])
}

/// Each chunk can give the item that is listed for it as its greatest.
pub open spec fn give_greatest<T: ChunkData>(
    chunks: Seq<T>,
    given: Seq<Option<T::Inner>>,
) -> bool {
    &&& given.len() == chunks.len()
    &&& forall|i: int|
        #![trigger chunks[i]]
        #![trigger given[i]]
        0 <= i < chunks.len() ==> chunks[i].may_be_greatest(given[i])
}

/// Part of a list of chunks holds no more items than the whole.
proof fn lemma_part_count<T: ChunkData>(chunks: Seq<T>, n: int)
    requires
        0 <= n <= chunks.len(),
    ensures
        total_count(chunks.take(n)) <= total_count(chunks),
    decreases chunks.len(),
{
    if n == chunks.len() {
        assert(chunks.take(n) =~= chunks);
    } else {
        lemma_part_count(chunks.drop_last(), n);
        assert(chunks.drop_last().take(n) =~= chunks.take(n));
    }
}

impl<T: ChunkData> ChunkData for Vec<T> {
    type Inner = T::Inner;

    open spec fn item_text(value: T::Inner) -> Seq<char> {
        T::item_text(value)
    }

    open spec fn item_count(&self) -> nat {
        total_count(self@)
    }

    /// The least of what the chunks give as their least items.
    open spec fn may_be_least(&self, item: Option<T::Inner>) -> bool {
        exists|given: Seq<Option<T::Inner>>| #[trigger]
            give_least(self@, given) && picked_least(given, item)
    }

    /// The greatest of what the chunks give as their greatest items.
    open spec fn may_be_greatest(&self, item: Option<T::Inner>) -> bool {
        exists|given: Seq<Option<T::Inner>>| #[trigger]
            give_greatest(self@, given) && picked_greatest(given, item)
    }

    /// The date of a single chunk. Several chunks lie in no one date.
    open spec fn day(&self) -> Option<Date> {
        if self@.len() == 1 {
            self@[0].day()
        } else {
            None
        }
    }

    fn format_item(value: T::Inner) -> (r: String) {
        T::format_item(value)
    }

    fn size(&self) -> (r: u64) {
        let mut total: u64 = 0;
        assert(self@.take(0) =~= seq![]);
        for i in 0..self.len()
            invariant
                total_count(self@) <= u64::MAX,
                total == total_count(self@.take(i as int)),
        {
            proof {
                assert(self@.take(i + 1).drop_last() =~= self@.take(i as int));
                lemma_part_count(self@, i + 1);
            }
            total = total + self[i].size();
        }
        assert(self@.take(self@.len() as int) =~= self@);
        total
    }

    fn date(&self) -> (r: Option<&Date>) {
        if self.len() == 1 {
            self[0].date()
        } else {
            None
        }
    }

    fn min_value(&self) -> (r: Option<T::Inner>) {
        let mut least: Option<T::Inner> = None;
        let ghost mut given: Seq<Option<T::Inner>> = seq![];
        for i in 0..self.len()
            invariant
                given.len() == i,
                forall|j: int|
                    0 <= j < i ==> (#[trigger] self@[j]).may_be_least(given[j]),
                picked_least(given, least),
        {
            let ghost before = least;
            let item = self[i].min_value();
            let ghost next = item;
            least = pick_lesser(least, item);
            proof {
                lemma_one_more_given(given, before, next, least);
                assert(given.push(next).drop_last() =~= given);
                given = given.push(next);
            }
        }
        assert(give_least(self@, given));
        least
    }

    fn max_value(&self) -> (r: Option<T::Inner>) {
        let mut greatest: Option<T::Inner> = None;
        let ghost mut given: Seq<Option<T::Inner>> = seq![];
        for i in 0..self.len()
            invariant
                given.len() == i,
                forall|j: int|
                    0 <= j < i ==> (#[trigger] self@[j]).may_be_greatest(given[j]),
                picked_greatest(given, greatest),
        {
            let ghost before = greatest;
            let item = self[i].max_value();
            let ghost next = item;
            greatest = pick_greater(greatest, item);
            proof {
                lemma_one_more_given(given, before, next, greatest);
                assert(given.push(next).drop_last() =~= given);
                given = given.push(next);
            }
        }
        assert(give_greatest(self@, given));
        greatest
    }
}

/// A list of one chunk is like that chunk: it has the same items and lies in the same date, and so
/// the same stands for it, whatever is known of the order of the items.
pub proof fn law_single_chunk_is_itself<T: ChunkData>(chunks: Vec<T>)
    requires
        chunks@.len() == 1,
    ensures
        chunks.item_count() == chunks@[0].item_count(),
        forall|item: Option<T::Inner>| #[trigger]
            chunks.may_be_least(item) <==> chunks@[0].may_be_least(item),
        forall|item: Option<T::Inner>| #[trigger]
            chunks.may_be_greatest(item) <==> chunks@[0].may_be_greatest(item),
        chunks.day() == chunks@[0].day(),
        forall|stub: Option<Seq<char>>| #[trigger]
            may_be_named(chunks, stub) <==> may_be_named(chunks@[0], stub),
{
    reveal_with_fuel(total_count, 2);
    reveal_with_fuel(least_given, 2);
    reveal_with_fuel(greatest_given, 2);
    let chunk = chunks@[0];
    assert forall|item: Option<T::Inner>| #[trigger]
        chunks.may_be_least(item) <==> chunk.may_be_least(item) by {
        if chunk.may_be_least(item) {
            let given = seq![item];
            assert(given[0] == item);
            assert(give_least(chunks@, given) && picked_least(given, item));
        }
        if chunks.may_be_least(item) {
            let given = choose|given: Seq<Option<T::Inner>>| #[trigger]
                give_least(chunks@, given) && picked_least(given, item);
            assert(chunks@[0].may_be_least(given[0]));
            assert(given[0] == item);
        }
    }
    assert forall|item: Option<T::Inner>| #[trigger]
        chunks.may_be_greatest(item) <==> chunk.may_be_greatest(item) by {
        if chunk.may_be_greatest(item) {
            let given = seq![item];
            assert(given[0] == item);
            assert(give_greatest(chunks@, given) && picked_greatest(given, item));
        }
        if chunks.may_be_greatest(item) {
            let given = choose|given: Seq<Option<T::Inner>>| #[trigger]
                give_greatest(chunks@, given) && picked_greatest(given, item);
            assert(chunks@[0].may_be_greatest(given[0]));
            assert(given[0] == item);
        }
    }
    assert forall|stub: Option<Seq<char>>| #[trigger]
        may_be_named(chunks, stub) <==> may_be_named(chunk, stub) by {
        let least = |item: Option<T::Inner>| chunk.may_be_least(item);
        let list_least = |item: Option<T::Inner>| chunks.may_be_least(item);
        let greatest = |item: Option<T::Inner>| chunk.may_be_greatest(item);
        let list_greatest = |item: Option<T::Inner>| chunks.may_be_greatest(item);
        assert(least =~= list_least);
        assert(greatest =~= list_greatest);
    }
}

/// Nothing stands for an empty list, whatever its items would be.
pub proof fn law_nothing_stands_for_no_chunks<T: ChunkData>(
    chunks: Vec<T>,
    stub: Option<Seq<char>>,
)
    requires
        chunks@.len() == 0,
    ensures
        may_be_named(chunks, stub) <==> stub is None,
{
    let none: Seq<Option<T::Inner>> = seq![];
    assert(give_least(chunks@, none) && picked_least(none, None));
    assert(give_greatest(chunks@, none) && picked_greatest(none, None));
    let least = |item: Option<T::Inner>| chunks.may_be_least(item);
    let greatest = |item: Option<T::Inner>| chunks.may_be_greatest(item);
    assert(least(None) && greatest(None));
}

/// Where one text stands for a chunk, a label of that text gives the same file as no label, and
/// two calls, one with that label and one without, come to the same.
pub proof fn law_label_like_the_stub_gives_the_same_file<C: ChunkData>(
    chunk: C,
    name: Seq<char>,
    output: FileOutput,
    stub: Seq<char>,
)
    requires
        forall|other: Option<Seq<char>>| #[trigger]
            may_be_named(chunk, other) <==> other == Some(stub),
    ensures
        forall|file: Option<Seq<char>>| #[trigger]
            may_be_file(chunk, name, output, None, file) <==> may_be_file(
                chunk,
                name,
                output,
                Some(stub),
                file,
            ),
        forall|a: Result<String, FileError>, b: Result<String, FileError>| #[trigger]
            may_be_stored(chunk, name, output, None, a) && #[trigger] may_be_stored(
                chunk,
                name,
                output,
                Some(stub),
                b,
            ) ==> alike(a, b),
{
    assert(may_be_named(chunk, Some(stub)));
}

/// With a label the chunk has no influence on the file, and two calls on any two chunks come to the
/// same.
pub proof fn law_label_hides_the_chunk<C: ChunkData, D: ChunkData>(
    chunk: C,
    other: D,
    name: Seq<char>,
    output: FileOutput,
    label: Seq<char>,
)
    ensures
        forall|file: Option<Seq<char>>| #[trigger]
            may_be_file(chunk, name, output, Some(label), file) <==> file == Some(
                output.file_name(name, label),
            ),
        forall|a: Result<String, FileError>, b: Result<String, FileError>| #[trigger]
            may_be_stored(chunk, name, output, Some(label), a) && #[trigger] may_be_stored(
                other,
                name,
                output,
                Some(label),
                b,
            ) ==> alike(a, b),
{
}

/// Where the order of the items is known and each chunk of a list has one least item, so has the
/// list.
pub proof fn law_least_is_settled<T: ChunkData>(
    chunks: Vec<T>,
    a: Option<T::Inner>,
    b: Option<T::Inner>,
)
    requires
        comparable::<T::Inner>(),
        forall|i: int, x: Option<T::Inner>, y: Option<T::Inner>|
            0 <= i < chunks@.len() && #[trigger] chunks@[i].may_be_least(x)
                && #[trigger] chunks@[i].may_be_least(y) ==> x == y,
        chunks.may_be_least(a),
        chunks.may_be_least(b),
    ensures
        a == b,
{
    let for_a = choose|given: Seq<Option<T::Inner>>| #[trigger]
        give_least(chunks@, given) && picked_least(given, a);
    let for_b = choose|given: Seq<Option<T::Inner>>| #[trigger]
        give_least(chunks@, given) && picked_least(given, b);
    assert forall|i: int| 0 <= i < chunks@.len() implies for_a[i] == for_b[i] by {
        assert(chunks@[i].may_be_least(for_a[i]) && chunks@[i].may_be_least(for_b[i]));
    }
    assert(for_a =~= for_b);
}

/// Where the order of the items is known and each chunk of a list has one greatest item, so has the
/// list.
pub proof fn law_greatest_is_settled<T: ChunkData>(
    chunks: Vec<T>,
    a: Option<T::Inner>,
    b: Option<T::Inner>,
)
    requires
        comparable::<T::Inner>(),
        forall|i: int, x: Option<T::Inner>, y: Option<T::Inner>|
            0 <= i < chunks@.len() && #[trigger] chunks@[i].may_be_greatest(x)
                && #[trigger] chunks@[i].may_be_greatest(y) ==> x == y,
        chunks.may_be_greatest(a),
        chunks.may_be_greatest(b),
    ensures
        a == b,
{
    let for_a = choose|given: Seq<Option<T::Inner>>| #[trigger]
        give_greatest(chunks@, given) && picked_greatest(given, a);
    let for_b = choose|given: Seq<Option<T::Inner>>| #[trigger]
        give_greatest(chunks@, given) && picked_greatest(given, b);
    assert forall|i: int| 0 <= i < chunks@.len() implies for_a[i] == for_b[i] by {
        assert(chunks@[i].may_be_greatest(for_a[i]) && chunks@[i].may_be_greatest(for_b[i]));
    }
    assert(for_a =~= for_b);
}

/// The chunks of two lists hold together what the lists hold.
pub proof fn law_counts_add_up<T: ChunkData>(first: Seq<T>, second: Seq<T>)
    ensures
        total_count(first + second) == total_count(first) + total_count(second),
    decreases second.len(),
{
    if second.len() == 0 {
        assert(first + second =~= first);
    } else {
        law_counts_add_up(first, second.drop_last());
        assert((first + second).drop_last() =~= first + second.drop_last());
    }
}

/// Items of the type are in a total order.
pub open spec fn ordered<I: Ord>() -> bool {
    obeys_cmp::<I>()
}

/// `a` does not come after `b`.
pub open spec fn at_most<I: Ord>(a: I, b: I) -> bool {
    a.cmp_spec(&b) != Ordering::Greater
}

/// In a total order, what does not come after an item does not come after what follows that.
proof fn lemma_at_most<I: Ord>(a: I, b: I, c: I)
    requires
        ordered::<I>(),
    ensures
        at_most(a, b) || at_most(b, a),
        at_most(a, a),
        at_most(a, b) && at_most(b, c) ==> at_most(a, c),
{
    reveal(obeys_cmp_partial_ord);
    reveal(obeys_cmp_ord);
    reveal(obeys_partial_cmp_spec_properties);
    reveal(obeys_eq_spec_properties);
    assert(a.partial_cmp_spec(&b) == Some(a.cmp_spec(&b)));
    assert(b.partial_cmp_spec(&a) == Some(b.cmp_spec(&a)));
    assert(b.partial_cmp_spec(&c) == Some(b.cmp_spec(&c)));
    assert(a.partial_cmp_spec(&c) == Some(a.cmp_spec(&c)));
    assert(c.partial_cmp_spec(&a) == Some(c.cmp_spec(&a)));
    assert(c.partial_cmp_spec(&b) == Some(c.cmp_spec(&b)));
    assert(a.partial_cmp_spec(&a) == Some(a.cmp_spec(&a)));
}

/// In a total order, the least of the items that are given is one of them, and none is lesser.
pub proof fn law_least_is_least<I: Ord>(given: Seq<Option<I>>)
    requires
        ordered::<I>(),
    ensures
        one_given(given, least_given(given)),
        forall|i: int|
            0 <= i < given.len() ==> (#[trigger] given[i] matches Some(item) ==> {
                least_given(given) is Some && at_most(least_given(given)->0, item)
            }),
    decreases given.len(),
{
    if given.len() > 0 {
        let earlier = given.drop_last();
        law_least_is_least(earlier);
        lemma_one_more_given(
            earlier,
            least_given(earlier),
            given.last(),
            least_given(given),
        );
        assert(earlier.push(given.last()) =~= given);
        assert forall|i: int| 0 <= i < given.len() implies (
        #[trigger] given[i] matches Some(item) ==> {
            least_given(given) is Some && at_most(least_given(given)->0, item)
        }) by {
            if let Some(item) = given[i] {
                let picked = least_given(given)->0;
                lemma_at_most(picked, item, item);
                if i < earlier.len() {
                    assert(earlier[i] == given[i]);
                    let before = least_given(earlier)->0;
                    lemma_at_most(picked, before, item);
                    if let Some(last) = given.last() {
                        lemma_at_most(last, before, item);
                    }
                } else if let Some(before) = least_given(earlier) {
                    lemma_at_most(before, item, item);
                }
            }
        }
    }
}

/// In a total order, the greatest of the items that are given is one of them, and none is greater.
pub proof fn law_greatest_is_greatest<I: Ord>(given: Seq<Option<I>>)
    requires
        ordered::<I>(),
    ensures
        one_given(given, greatest_given(given)),
        forall|i: int|
            0 <= i < given.len() ==> (#[trigger] given[i] matches Some(item) ==> {
                greatest_given(given) is Some && at_most(item, greatest_given(given)->0)
            }),
    decreases given.len(),
{
    if given.len() > 0 {
        let earlier = given.drop_last();
        law_greatest_is_greatest(earlier);
        lemma_one_more_given(
            earlier,
            greatest_given(earlier),
            given.last(),
            greatest_given(given),
        );
        assert(earlier.push(given.last()) =~= given);
        assert forall|i: int| 0 <= i < given.len() implies (
        #[trigger] given[i] matches Some(item) ==> {
            greatest_given(given) is Some && at_most(item, greatest_given(given)->0)
        }) by {
            if let Some(item) = given[i] {
                let picked = greatest_given(given)->0;
                lemma_at_most(picked, item, item);
                if i < earlier.len() {
                    assert(earlier[i] == given[i]);
                    let before = greatest_given(earlier)->0;
                    lemma_at_most(item, before, picked);
                    if let Some(last) = given.last() {
                        lemma_at_most(last, before, item);
                    }
                } else if let Some(before) = greatest_given(earlier) {
                    lemma_at_most(before, item, item);
                }
            }
        }
    }
}

/// A chunk without a date is named by its least item, then its greatest, with `_to_` between them,
/// whatever the items look like: it is named exactly where it has both.
pub proof fn law_stub_runs_from_least_to_greatest<C: ChunkData>(chunk: C, stub: Option<Seq<char>>)
    requires
        chunk.day() is None,
        may_be_named(chunk, stub),
    ensures
        exists|min: Option<C::Inner>, max: Option<C::Inner>|
            {
                &&& #[trigger] chunk.may_be_least(min)
                &&& #[trigger] chunk.may_be_greatest(max)
                &&& stub is Some <==> min is Some && max is Some
                &&& stub is Some ==> {
                    let (first, last) = (C::item_text(min->0), C::item_text(max->0));
                    &&& first.is_prefix_of(stub->0)
                    &&& last.is_suffix_of(stub->0)
                    &&& stub->0.len() == first.len() + 4 + last.len()
                    &&& stub->0.subrange(first.len() as int, first.len() + 4int) == seq![
                        '_',
                        't',
                        'o',
                        '_',
                    ]
                }
            },
{
    reveal_strlit("_to_");
    let least = |item: Option<C::Inner>| chunk.may_be_least(item);
    let greatest = |item: Option<C::Inner>| chunk.may_be_greatest(item);
    let text = |value: C::Inner| C::item_text(value);
    let (min, max) = choose|min: Option<C::Inner>, max: Option<C::Inner>| #[trigger]
        least(min) && #[trigger] greatest(max) && stub == range_text(min, max, text);
    assert(chunk.may_be_least(min) && chunk.may_be_greatest(max));
    if stub is Some {
        let (first, last) = (C::item_text(min->0), C::item_text(max->0));
        assert(first.is_prefix_of(stub->0));
        assert(last.is_suffix_of(stub->0));
        let between = stub->0.subrange(first.len() as int, first.len() + 4int);
        assert(between =~= seq!['_', 't', 'o', '_']);
    }
}

/// A chunk with a date is named by that date, whatever its items are.
pub proof fn law_dated_chunk_is_named_by_its_date<C: ChunkData>(
    chunk: C,
    stub: Option<Seq<char>>,
)
    requires
        chunk.day() is Some,
    ensures
        may_be_named(chunk, stub) <==> stub == Some(chunk.day()->0.text()),
{
}

/// A list lies in a date only where it is a single chunk that does.
pub proof fn law_several_chunks_have_no_date<T: ChunkData>(chunks: Vec<T>)
    ensures
        chunks@.len() != 1 ==> chunks.day() is None,
        chunks@.len() == 1 ==> chunks.day() == chunks@[0].day(),
{
}

/// The parts of a file name stand in it one after the other, with two underscores between them and
/// a dot before the format.
pub proof fn law_file_name_has_its_parts(
    prefix: Seq<char>,
    name: Seq<char>,
    stub: Seq<char>,
    suffix: Option<Seq<char>>,
    format: Seq<char>,
)
    ensures
        ({
            let file = file_name(prefix, name, stub, suffix, format);
            let a = prefix.len() as int;
            let b = a + 2 + name.len();
            let c = b + 2 + stub.len();
            let d = match suffix {
                Some(suffix) => c + 2 + suffix.len(),
                None => c,
            };
            &&& file.len() == d + 1 + format.len()
            &&& file.take(a) == prefix
            &&& file[a] == '_' && file[a + 1] == '_'
            &&& file.subrange(a + 2, b) == name
            &&& file[b] == '_' && file[b + 1] == '_'
            &&& file.subrange(b + 2, c) == stub
            &&& suffix is Some ==> file[c] == '_' && file[c + 1] == '_' && file.subrange(c + 2, d)
                == suffix->0
            &&& file[d] == '.'
            &&& file.skip(d + 1) == format
        }),
{
    reveal_strlit("__");
    reveal_strlit(".");
    let file = file_name(prefix, name, stub, suffix, format);
    let a = prefix.len() as int;
    let b = a + 2 + name.len();
    let c = b + 2 + stub.len();
    let d = match suffix {
        Some(suffix) => c + 2 + suffix.len(),
        None => c,
    };
    assert(file.take(a) =~= prefix);
    assert(file.subrange(a + 2, b) =~= name);
    assert(file.subrange(b + 2, c) =~= stub);
    if let Some(last) = suffix {
        assert(file.subrange(c + 2, d) =~= last);
    }
    assert(file.skip(d + 1) =~= format);
}

/// An output names files by its own prefix, suffix and format.
pub proof fn law_output_names_files_by_its_parts(
    output: FileOutput,
    name: Seq<char>,
    stub: Seq<char>,
)
    ensures
        output.suffix is None ==> output.file_name(name, stub) == output.prefix@ + seq!['_', '_']
            + name + seq!['_', '_'] + stub + seq!['.'] + output.format@,
        output.suffix is Some ==> output.file_name(name, stub) == output.prefix@ + seq!['_', '_']
            + name + seq!['_', '_'] + stub + seq!['_', '_'] + output.suffix->0@ + seq!['.']
            + output.format@,
{
    reveal_strlit("__");
    reveal_strlit(".");
    let file = output.file_name(name, stub);
    let start = output.prefix@ + seq!['_', '_'] + name + seq!['_', '_'] + stub;
    match output.suffix {
        Some(suffix) => {
            assert(file =~= start + seq!['_', '_'] + suffix@ + seq!['.'] + output.format@);
        },
        None => {
            assert(file =~= start + seq!['.'] + output.format@);
        },
    }
}

/// A chunk that something stands for has a path exactly where the path of its file in the directory
/// is text, and then it is that text; otherwise the directory is at fault, and never the chunk. A
/// chunk that nothing stands for is not valid.
pub proof fn law_path_is_that_of_the_file(
    output: FileOutput,
    name: Seq<char>,
    stub: Option<Seq<char>>,
    r: Result<String, FileError>,
)
    requires
        stored(output, name, stub, r),
    ensures
        stub is None ==> r == Err::<String, FileError>(
            FileError::FilePathError(ChunkError::InvalidChunk),
        ),
        stub is Some ==> ({
            let path = path_text(joined(output.output_dir, output.file_name(name, stub->0)));
            &&& r is Ok <==> path is Some
            &&& r is Ok ==> r->Ok_0@ == path->0
            &&& r is Err ==> (r->Err_0 matches FileError::NoFilePathError(text) && text@
                == "output dir invalid"@)
        }),
{
}

/// What can come of the file for a chunk is what comes of some text that stands for it, or of its
/// label.
pub proof fn law_outcome_rests_on_label_or_stub<C: ChunkData>(
    chunk: C,
    name: Seq<char>,
    output: FileOutput,
    label: Option<Seq<char>>,
    r: Result<String, FileError>,
)
    requires
        may_be_stored(chunk, name, output, label, r),
    ensures
        label is Some ==> stored(output, name, label, r),
        label is None ==> exists|stub: Option<Seq<char>>|
            may_be_named(chunk, stub) && #[trigger] stored(output, name, stub, r),
{
}

/// The least item of a list is an item that one of its chunks gives as its least, and where the
/// items are in a total order no chunk gives a lesser one. It is missing only where no chunk gives
/// one.
pub proof fn law_least_of_a_list_is_that_of_its_chunks<T: ChunkData>(
    chunks: Vec<T>,
    item: Option<T::Inner>,
)
    requires
        chunks.may_be_least(item),
    ensures
        exists|given: Seq<Option<T::Inner>>|
            {
                &&& #[trigger] given.len() == chunks@.len()
                &&& forall|i: int|
                    0 <= i < chunks@.len() ==> chunks@[i].may_be_least(#[trigger] given[i])
                &&& item is Some ==> exists|i: int|
                    0 <= i < chunks@.len() && #[trigger] given[i] == item
                &&& forall|i: int|
                    0 <= i < chunks@.len() ==> ((#[trigger] given[i]) is Some ==> {
                        &&& item is Some
                        &&& ordered::<T::Inner>() ==> at_most(item->0, given[i]->0)
                    })
            },
{
    let given = choose|given: Seq<Option<T::Inner>>| #[trigger]
        give_least(chunks@, given) && picked_least(given, item);
    assert(given.len() == chunks@.len());
    if ordered::<T::Inner>() {
        reveal(obeys_cmp_ord);
        law_least_is_least(given);
    }
    assert forall|i: int| 0 <= i < chunks@.len() implies ((#[trigger] given[i]) is Some ==> {
        &&& item is Some
        &&& ordered::<T::Inner>() ==> at_most(item->0, given[i]->0)
    }) by {
        assert(chunks@[i].may_be_least(given[i]));
    }
}

/// The greatest item of a list is an item that one of its chunks gives as its greatest, and where
/// the items are in a total order no chunk gives a greater one. It is missing only where no chunk
/// gives one.
pub proof fn law_greatest_of_a_list_is_that_of_its_chunks<T: ChunkData>(
    chunks: Vec<T>,
    item: Option<T::Inner>,
)
    requires
        chunks.may_be_greatest(item),
    ensures
        exists|given: Seq<Option<T::Inner>>|
            {
                &&& #[trigger] given.len() == chunks@.len()
                &&& forall|i: int|
                    0 <= i < chunks@.len() ==> chunks@[i].may_be_greatest(#[trigger] given[i])
                &&& item is Some ==> exists|i: int|
                    0 <= i < chunks@.len() && #[trigger] given[i] == item
                &&& forall|i: int|
                    0 <= i < chunks@.len() ==> ((#[trigger] given[i]) is Some ==> {
                        &&& item is Some
                        &&& ordered::<T::Inner>() ==> at_most(given[i]->0, item->0)
                    })
            },
{
    let given = choose|given: Seq<Option<T::Inner>>| #[trigger]
        give_greatest(chunks@, given) && picked_greatest(given, item);
    assert(given.len() == chunks@.len());
    if ordered::<T::Inner>() {
        reveal(obeys_cmp_ord);
        law_greatest_is_greatest(given);
    }
    assert forall|i: int| 0 <= i < chunks@.len() implies ((#[trigger] given[i]) is Some ==> {
        &&& item is Some
        &&& ordered::<T::Inner>() ==> at_most(given[i]->0, item->0)
    }) by {
        assert(chunks@[i].may_be_greatest(given[i]));
    }
}

} // verus!
