//! File names and sizes as the loaders show and use them.

use vstd::prelude::*;
use crate::text::{dec, push_str, push_decimal, string_from_chars};

verus! {

/// `file` joined to the directory `dir` the way a path buffer pushes a
/// component on Unix: an absolute `file` replaces `dir`; otherwise a `/` is
/// put between them unless `dir` is empty or already ends with one.
pub open spec fn joined_path(dir: Seq<char>, file: Seq<char>) -> Seq<char> {
    if file.len() > 0 && file[0] == '/' {
        file
    } else if dir.len() > 0 && dir.last() != '/' {
        dir + seq!['/'] + file
    } else {
        dir + file
    }
}

/// The path of the file `filename` in the directory `data_dir`.
pub fn get_filepath(data_dir: &str, filename: &str) -> (res: String)
    ensures
        res@ == joined_path(data_dir@, filename@),
{
    let dir = crate::text::to_chars(data_dir);
    let file = crate::text::to_chars(filename);
    let mut out: Vec<char> = Vec::new();
    if file.len() > 0 && file[0] == '/' {
        push_str(&mut out, filename);
    } else {
        push_str(&mut out, data_dir);
        if dir.len() > 0 && dir[dir.len() - 1] != '/' {
            out.push('/');
        }
        push_str(&mut out, filename);
    }
    assert(out@ =~= joined_path(data_dir@, filename@));
    string_from_chars(&out)
}

/// A byte count in the largest of bytes, kilobytes, megabytes and gigabytes
/// in which it is at least one, rounded down.
pub open spec fn size_spec(len: nat) -> Seq<char> {
    if len < 1024 {
        dec(len) + seq!['b']
    } else if len < 1024 * 1024 {
        dec(len / 1024) + seq!['K', 'b']
    } else if len < 1024 * 1024 * 1024 {
        dec(len / (1024 * 1024)) + seq!['M', 'b']
    } else {
        dec(len / (1024 * 1024 * 1024)) + seq!['G', 'b']
    }
}

/// The size of unpacked contents as it is reported, e.g. `12Kb`.
pub fn size_text(len: usize) -> (res: String)
    ensures
        res@ == size_spec(len as nat),
{
    let n = len as u128;
    let mut out: Vec<char> = Vec::new();
    if n < 1024 {
        push_decimal(n, &mut out);
        out.push('b');
    } else if n < 1024 * 1024 {
        push_decimal(n / 1024, &mut out);
        out.push('K');
        out.push('b');
    } else if n < 1024 * 1024 * 1024 {
        push_decimal(n / (1024 * 1024), &mut out);
        out.push('M');
        out.push('b');
    } else {
        push_decimal(n / (1024 * 1024 * 1024), &mut out);
        out.push('G');
        out.push('b');
    }
    assert(out@ =~= size_spec(len as nat));
    string_from_chars(&out)
}

/// The name under which a field of the `index`-th record is parsed, e.g.
/// `[3].style`.
pub open spec fn field_name(index: nat, field: Seq<char>) -> Seq<char> {
    seq!['['] + dec(index) + seq![']', '.'] + field
}

/// The name of a field of the `index`-th record.
pub fn record_field_name(index: usize, field: &str) -> (res: String)
    ensures
        res@ == field_name(index as nat, field@),
{
    let mut out: Vec<char> = Vec::new();
    out.push('[');
    push_decimal(index as u128, &mut out);
    out.push(']');
    out.push('.');
    push_str(&mut out, field);
    assert(out@ =~= field_name(index as nat, field@));
    string_from_chars(&out)
}

} // verus!
