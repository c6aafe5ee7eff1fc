//! Where stored files go in a bucket.
use vstd::prelude::*;
use crate::chunks::file_name;
use crate::date::{day_text, year_text, Date};
use crate::paths::{ends_in, file_part, last_part, path_text, text_of};
use crate::text::{chars_of, decimal, digits, string_of};

verus! {

/// Media type of the uploaded files.
pub const BLOB_MIME: &'static str = "application/octet-stream";

/// The text with each pair of underscores replaced by a slash, from left to right.
pub open spec fn slashed(text: Seq<char>) -> Seq<char>
    decreases text.len(),
{
    if text.len() < 2 {
        text
    } else if text[0] == '_' && text[1] == '_' {
        seq!['/'] + slashed(text.skip(2))
    } else {
        seq![text[0]] + slashed(text.skip(1))
    }
}

/// Splits the destination of an upload into the bucket and the prefix in it, at the first slash.
pub fn bucket_and_prefix(gcs_prefix: &str) -> (r: Option<(String, String)>)
    ensures
        match r {
            Some((bucket, prefix)) => {
                &&& gcs_prefix@ == bucket@ + seq!['/'] + prefix@
                &&& !bucket@.contains('/')
            },
            None => !gcs_prefix@.contains('/'),
        },
{
    let chars: Vec<char> = chars_of(gcs_prefix);
    for i in 0..chars.len()
        invariant
            chars@ == gcs_prefix@,
            forall|j: int| 0 <= j < i ==> gcs_prefix@[j] != '/',
    {
        if chars[i] == '/' {
            let bucket = string_of(&chars, 0, i);
            let prefix = string_of(&chars, i + 1, chars.len());
            assert(gcs_prefix@ =~= bucket@ + seq!['/'] + prefix@);
            return Some((bucket, prefix));
        }
    }
    None
}

/// Names the blob that a file is uploaded to: the prefix, followed by the name of the file with
/// the parts that it is made of as directories.
pub fn blob_name(prefix: &str, basename: &str) -> (r: String)
    ensures
        r@ == prefix@ + slashed(basename@),
{
    let chars: Vec<char> = chars_of(basename);
    let mut name: String = prefix.to_owned();
    let mut i: usize = 0;
    assert(basename@.skip(0) =~= basename@);
    assert(prefix@ + slashed(basename@) =~= name@ + slashed(basename@.skip(0)));
    while i < chars.len()
        invariant
            chars@ == basename@,
            i <= chars@.len(),
            name@ + slashed(basename@.skip(i as int)) == prefix@ + slashed(basename@),
        decreases chars.len() - i,
    {
        let ghost rest = basename@.skip(i as int);
        let ghost before = name@;
        if chars.len() - i >= 2 && chars[i] == '_' && chars[i + 1] == '_' {
            name.push('/');
            assert(rest.skip(2) =~= basename@.skip(i + 2));
            assert(name@ + slashed(rest.skip(2)) =~= before + slashed(rest));
            i = i + 2;
        } else {
            name.push(chars[i]);
            assert(rest.skip(1) =~= basename@.skip(i + 1));
            proof {
                if rest.len() == 1 {
                    assert(rest =~= seq![rest[0]]);
                }
            }
            assert(name@ + slashed(rest.skip(1)) =~= before + slashed(rest));
            i = i + 1;
        }
    }
    assert(name@ + slashed(basename@.skip(i as int)) =~= name@);
    name
}

/// Names the blob that the file at a path is uploaded to. Only the last part of the path counts; a
/// path that has none, or none in text, gives no blob.
pub fn blob_name_of(prefix: &str, path: &std::path::PathBuf) -> (r: Option<String>)
    ensures
        match r {
            Some(name) => {
                &&& last_part(*path) is Some
                &&& path_text(last_part(*path)->0) is Some
                &&& name@ == prefix@ + slashed(path_text(last_part(*path)->0)->0)
            },
            None => last_part(*path) matches Some(last) ==> path_text(last) is None,
        },
        forall|text: Seq<char>, part: Seq<char>|
            path_text(*path) == Some(text) && #[trigger] ends_in(text, part) ==> r is Some && r->0@
                == prefix@ + slashed(part),
{
    match file_part(path) {
        Some(last) => match text_of(&last) {
            Some(basename) => Some(blob_name(prefix, basename.as_str())),
            None => None,
        },
        None => None,
    }
}

/// No two underscores stand side by side in the text.
pub open spec fn unbroken(text: Seq<char>) -> bool {
    forall|i: int| 0 <= i < text.len() - 1 ==> !(#[trigger] text[i] == '_' && text[i + 1] == '_')
}

/// The text can be a part of a file name: it is unbroken, and the next part is not taken to begin
/// within it.
pub open spec fn whole(part: Seq<char>) -> bool {
    unbroken(part) && (part.len() > 0 ==> part.last() != '_')
}

/// A text without two underscores side by side stays as it is.
pub proof fn law_unbroken_text_stays(text: Seq<char>)
    requires
        unbroken(text),
    ensures
        slashed(text) == text,
    decreases text.len(),
{
    if text.len() >= 2 {
        let rest = text.skip(1);
        assert(!(text[0] == '_' && text[1] == '_'));
        assert forall|i: int| 0 <= i < rest.len() - 1 implies !(#[trigger] rest[i] == '_'
            && rest[i + 1] == '_') by {
            assert(!(text[i + 1] == '_' && text[i + 1 + 1] == '_'));
        }
        law_unbroken_text_stays(rest);
        assert(seq![text[0]] + rest =~= text);
    }
}

/// A text up to its first two underscores becomes a directory, and what follows them is treated in
/// the same way.
pub proof fn law_part_becomes_directory(part: Seq<char>, rest: Seq<char>)
    requires
        whole(part),
    ensures
        slashed(part + seq!['_', '_'] + rest) == part + seq!['/'] + slashed(rest),
    decreases part.len(),
{
    let text = part + seq!['_', '_'] + rest;
    if part.len() == 0 {
        assert(text.skip(2) =~= rest);
        assert(seq!['/'] + slashed(rest) =~= part + seq!['/'] + slashed(rest));
    } else {
        let others = part.skip(1);
        assert(!(text[0] == '_' && text[1] == '_')) by {
            if part.len() >= 2 {
                assert(!(part[0] == '_' && part[1] == '_'));
            }
        }
        assert forall|i: int| 0 <= i < others.len() - 1 implies !(#[trigger] others[i] == '_'
            && others[i + 1] == '_') by {
            assert(!(part[i + 1] == '_' && part[i + 1 + 1] == '_'));
        }
        law_part_becomes_directory(others, rest);
        assert(text.skip(1) =~= others + seq!['_', '_'] + rest);
        assert(seq![part[0]] + (others + seq!['/'] + slashed(rest)) =~= part + seq!['/'] + slashed(
            rest,
        ));
    }
}

/// The name that a chunk is stored under becomes a path in the bucket: the network, then the
/// dataset, then what tells the chunk apart, where network and dataset are whole parts.
pub proof fn law_blob_lies_under_network_and_dataset(
    prefix: Seq<char>,
    name: Seq<char>,
    stub: Seq<char>,
    suffix: Option<Seq<char>>,
    format: Seq<char>,
)
    requires
        whole(prefix),
        whole(name),
    ensures
        slashed(file_name(prefix, name, stub, suffix, format)) == prefix + seq!['/'] + name
            + seq!['/'] + slashed(
            stub + match suffix {
                Some(suffix) => "__"@ + suffix,
                None => seq![],
            } + "."@ + format,
        ),
{
    reveal_strlit("__");
    let tail = stub + match suffix {
        Some(suffix) => "__"@ + suffix,
        None => seq![],
    } + "."@ + format;
    let pair = seq!['_', '_'];
    assert("__"@ =~= pair);
    assert(file_name(prefix, name, stub, suffix, format) =~= prefix + pair + (name + pair + tail));
    law_part_becomes_directory(prefix, name + pair + tail);
    law_part_becomes_directory(name, tail);
    assert(prefix + seq!['/'] + (name + seq!['/'] + slashed(tail)) =~= prefix + seq!['/'] + name
        + seq!['/'] + slashed(tail));
}

/// Where every part is whole, the parts of the name are exactly the directories of the path.
pub proof fn law_blob_path_has_the_parts(
    prefix: Seq<char>,
    name: Seq<char>,
    stub: Seq<char>,
    suffix: Option<Seq<char>>,
    format: Seq<char>,
)
    requires
        whole(prefix),
        whole(name),
        whole(stub),
        suffix matches Some(suffix) ==> whole(suffix),
        unbroken(format),
    ensures
        slashed(file_name(prefix, name, stub, suffix, format)) == prefix + seq!['/'] + name
            + seq!['/'] + stub + match suffix {
            Some(suffix) => seq!['/'] + suffix,
            None => seq![],
        } + "."@ + format,
{
    reveal_strlit("__");
    reveal_strlit(".");
    assert("__"@ =~= seq!['_', '_']);
    assert("."@ =~= seq!['.']);
    law_blob_lies_under_network_and_dataset(prefix, name, stub, suffix, format);
    let path = prefix + seq!['/'] + name + seq!['/'];
    match suffix {
        Some(last) => {
            let tail = last + "."@ + format;
            lemma_unbroken_end(last, format);
            law_part_becomes_directory(stub, tail);
            assert(stub + ("__"@ + last) + "."@ + format =~= stub + seq!['_', '_'] + tail);
            assert(path + (stub + seq!['/'] + tail) =~= path + stub + (seq!['/'] + last) + "."@
                + format);
        },
        None => {
            lemma_unbroken_end(stub, format);
            assert(stub + seq![] + "."@ + format =~= stub + "."@ + format);
            assert(path + (stub + "."@ + format) =~= path + stub + seq![] + "."@ + format);
        },
    }
}

/// A part with an extension stays as it is.
proof fn lemma_unbroken_end(part: Seq<char>, format: Seq<char>)
    requires
        unbroken(part),
        unbroken(format),
    ensures
        slashed(part + "."@ + format) == part + "."@ + format,
{
    reveal_strlit(".");
    let text = part + "."@ + format;
    let n = part.len() as int;
    assert("."@ =~= seq!['.']);
    assert forall|i: int| 0 <= i < text.len() - 1 implies !(#[trigger] text[i] == '_' && text[i + 1]
        == '_') by {
        if i < n - 1 {
            assert(!(part[i] == '_' && part[i + 1] == '_'));
        } else if i > n {
            assert(!(format[i - n - 1] == '_' && format[i - n - 1 + 1] == '_'));
        }
    }
    law_unbroken_text_stays(text);
}

/// Decimal digits hold no underscore.
proof fn lemma_digits_are_plain(n: nat, width: nat)
    ensures
        !digits(n, width).contains('_'),
    decreases width,
{
    if width > 0 {
        lemma_digits_are_plain(n / 10, (width - 1) as nat);
        let before = digits(n / 10, (width - 1) as nat);
        assert forall|i: int| 0 <= i < digits(n, width).len() implies digits(n, width)[i]
            != '_' by {
            if i < before.len() {
                assert(before.contains(before[i]));
            }
        }
    }
}

/// Decimal digits hold no underscore.
proof fn lemma_decimal_is_plain(n: nat)
    ensures
        !decimal(n).contains('_'),
    decreases n,
{
    if n >= 10 {
        lemma_decimal_is_plain(n / 10);
        let before = decimal(n / 10);
        assert forall|i: int| 0 <= i < decimal(n).len() implies decimal(n)[i] != '_' by {
            if i < before.len() {
                assert(before.contains(before[i]));
            }
        }
    }
}

/// A day is a whole part.
proof fn lemma_day_is_whole(date: Date)
    ensures
        whole(day_text(date.year(), date.month(), date.day())),
{
    let text = day_text(date.year(), date.month(), date.day());
    let year = year_text(date.year());
    let month = digits(date.month() as nat, 2);
    let day = digits(date.day() as nat, 2);
    reveal_strlit("-");
    lemma_digits_are_plain(date.year() as nat, 4);
    lemma_digits_are_plain((-date.year()) as nat, 4);
    lemma_decimal_is_plain(date.year() as nat);
    lemma_decimal_is_plain((-date.year()) as nat);
    lemma_digits_are_plain(date.month() as nat, 2);
    lemma_digits_are_plain(date.day() as nat, 2);
    assert forall|i: int| 0 <= i < year.len() implies #[trigger] year[i] != '_' by {
        let n = (if date.year() < 0 {
            -date.year()
        } else {
            date.year()
        }) as nat;
        if i < digits(n, 4).len() {
            assert(digits(n, 4).contains(digits(n, 4)[i]));
        }
        if 0 < i <= digits(n, 4).len() {
            assert(digits(n, 4).contains(digits(n, 4)[i - 1]));
        }
        if 0 < i <= decimal(n).len() {
            assert(decimal(n).contains(decimal(n)[i - 1]));
        }
    }
    assert forall|i: int| 0 <= i < text.len() implies #[trigger] text[i] != '_' by {
        let m = i - year.len() - 1;
        let d = m - month.len() - 1;
        if i < year.len() {
            assert(year[i] != '_');
        } else if 0 <= m < month.len() {
            assert(month.contains(month[m]));
        } else if 0 <= d < day.len() {
            assert(day.contains(day[d]));
        }
    }
}

/// What is stored for a date lies in a directory of that date.
pub proof fn law_dated_blob_lies_under_its_date(
    prefix: Seq<char>,
    name: Seq<char>,
    date: Date,
    format: Seq<char>,
)
    requires
        whole(prefix),
        whole(name),
        unbroken(format),
    ensures
        slashed(file_name(prefix, name, date.text(), None, format)) == prefix + seq!['/'] + name
            + seq!['/'] + day_text(date.year(), date.month(), date.day()) + "/data."@ + format,
{
    reveal_strlit("__data");
    reveal_strlit("/data.");
    reveal_strlit(".");
    let day = day_text(date.year(), date.month(), date.day());
    let data = seq!['d', 'a', 't', 'a'];
    let path = prefix + seq!['/'] + name + seq!['/'];
    law_blob_lies_under_network_and_dataset(prefix, name, date.text(), None, format);
    lemma_day_is_whole(date);
    lemma_unbroken_end(data, format);
    law_part_becomes_directory(day, data + "."@ + format);
    assert(date.text() + seq![] + "."@ + format =~= day + seq!['_', '_'] + (data + "."@ + format));
    assert(path + (day + seq!['/'] + (data + "."@ + format)) =~= path + day + "/data."@ + format);
}

} // verus!
