use vstd::prelude::*;
use vstd::string::*;

use crate::config::MailConfig;
use crate::error::SubmitError;
use crate::text::{
    bytes_end_with, bytes_start_with, decimal, decimal_bytes, ends_with, push_decimal,
    push_decimal_bytes, starts_with, utf8_of,
};

verus! {

/// The character sequences of a list of strings.
pub open spec fn views(v: Seq<String>) -> Seq<Seq<char>> {
    v.map_values(|s: String| s@)
}

/// The sequence number of a patch file as it opens the file's name:
/// zero-padded to four digits, longer where the number needs it.
pub open spec fn sequence_text(k: nat) -> Seq<u8> {
    let d = decimal_bytes(k);
    if d.len() >= 4 {
        d
    } else {
        Seq::new((4 - d.len()) as nat, |i: int| 48u8) + d
    }
}

/// The extension `.patch`.
pub open spec fn patch_extension() -> Seq<u8> {
    seq![46u8, 112, 97, 116, 99, 104]
}

/// Whether a file name is that of the patch with sequence number `k`.
pub open spec fn is_patch_name(name: Seq<u8>, k: nat) -> bool {
    starts_with(name, sequence_text(k) + seq![45u8]) && ends_with(name, patch_extension())
}

/// Whether some name in `names` is that of patch `k`.
pub open spec fn has_patch(names: Seq<String>, k: nat) -> bool {
    exists|m: int| 0 <= m < names.len() && is_patch_name(utf8_of(&names[m]), k)
}

/// `m` is the first position in `names` that holds patch `k`.
pub open spec fn is_first_patch_at(names: Seq<String>, k: nat, m: int) -> bool {
    &&& 0 <= m < names.len()
    &&& is_patch_name(utf8_of(&names[m]), k)
    &&& forall|q: int| 0 <= q < m ==> !is_patch_name(#[trigger] utf8_of(&names[q]), k)
}

/// `s` is the file name that stands first in `names` for patch `k`.
pub open spec fn is_patch_file(names: Seq<String>, k: nat, s: String) -> bool {
    exists|m: int| is_first_patch_at(names, k, m) && s@ == names[m]@
}

/// The arguments of the query that counts the commits after `root_commit`.
pub fn rev_list_args(root_commit: &String) -> (r: Vec<String>)
    ensures
        views(r@) == seq!["rev-list"@, "--count"@, root_commit@ + "..HEAD"@],
{
    let mut r: Vec<String> = Vec::new();
    r.push(String::from_str("rev-list"));
    r.push(String::from_str("--count"));
    r.push(root_commit.clone().concat("..HEAD"));
    assert(views(r@) =~= seq!["rev-list"@, "--count"@, root_commit@ + "..HEAD"@]);
    r
}

/// The arguments that write the last `count` commits as patch files into `out_dir`.
pub fn format_patch_args(out_dir: &String, count: usize) -> (r: Vec<String>)
    ensures
        views(r@) == seq![
            "format-patch"@,
            "--output-directory"@,
            out_dir@,
            seq!['-'] + decimal(count as nat),
        ],
{
    let mut r: Vec<String> = Vec::new();
    r.push(String::from_str("format-patch"));
    r.push(String::from_str("--output-directory"));
    r.push(out_dir.clone());
    let mut n = String::new();
    crate::text::push_char(&mut n, '-');
    push_decimal(&mut n, count as u64);
    r.push(n);
    assert(views(r@) =~= seq![
        "format-patch"@,
        "--output-directory"@,
        out_dir@,
        seq!['-'] + decimal(count as nat),
    ]);
    r
}

/// The arguments that mail `paths`, in order, as one series.
pub fn send_email_args(mail: &MailConfig, paths: &Vec<String>) -> (r: Vec<String>)
    ensures
        views(r@) == seq!["send-email"@, "--to"@, mail.to@, "--confirm=never"@] + (if mail.suppress_cc {
            seq!["--suppress-cc=all"@]
        } else {
            Seq::<Seq<char>>::empty()
        }) + views(paths@),
{
    let mut r: Vec<String> = Vec::new();
    r.push(String::from_str("send-email"));
    r.push(String::from_str("--to"));
    r.push(mail.to.clone());
    r.push(String::from_str("--confirm=never"));
    if mail.suppress_cc {
        r.push(String::from_str("--suppress-cc=all"));
    }
    let ghost head = views(r@);
    assert(head =~= seq!["send-email"@, "--to"@, mail.to@, "--confirm=never"@] + (if mail.suppress_cc {
        seq!["--suppress-cc=all"@]
    } else {
        Seq::<Seq<char>>::empty()
    }));
    let mut i: usize = 0;
    while i < paths.len()
        invariant
            i <= paths@.len(),
            views(r@) =~= head + views(paths@.subrange(0, i as int)),
        decreases paths@.len() - i,
    {
        let ghost before = r@;
        r.push(paths[i].clone());
        assert(r@ == before.push(paths@[i as int]));
        assert(views(r@) =~= views(before).push(paths@[i as int]@));
        assert(views(paths@.subrange(0, i + 1)) =~= views(paths@.subrange(0, i as int)).push(
            paths@[i as int]@,
        ));
        assert(views(r@) =~= head + views(paths@.subrange(0, i + 1)));
        i += 1;
    }
    assert(paths@.subrange(0, paths@.len() as int) =~= paths@);
    r
}

/// The bytes that open the name of patch `k`: its sequence number and `-`.
fn patch_name_prefix(k: usize) -> (r: Vec<u8>)
    ensures
        r@ == sequence_text(k as nat) + seq![45u8],
{
    let mut d: Vec<u8> = Vec::new();
    push_decimal_bytes(&mut d, k as u64);
    assert(d@ =~= decimal_bytes(k as nat));
    let mut r: Vec<u8> = Vec::new();
    if d.len() < 4 {
        let pad: usize = 4 - d.len();
        while r.len() < pad
            invariant
                pad <= 4,
                r@.len() <= pad,
                forall|i: int| 0 <= i < r@.len() ==> r@[i] == 48u8,
            decreases pad - r@.len(),
        {
            r.push(48u8);
        }
    }
    let ghost start = r@;
    let mut i: usize = 0;
    while i < d.len()
        invariant
            i <= d@.len(),
            r@ == start + d@.subrange(0, i as int),
        decreases d@.len() - i,
    {
        r.push(d[i]);
        assert(r@ =~= start + d@.subrange(0, i + 1));
        i += 1;
    }
    assert(d@.subrange(0, d@.len() as int) =~= d@);
    assert(start =~= sequence_text(k as nat).subrange(0, start.len() as int));
    r.push(45u8);
    assert(r@ =~= sequence_text(k as nat) + seq![45u8]);
    r
}

/// Whether the file name is that of patch `k`.
pub fn names_patch(name: &String, k: usize) -> (r: bool)
    ensures
        r == is_patch_name(utf8_of(name), k as nat),
{
    let bytes = name.as_str().as_bytes();
    let prefix = patch_name_prefix(k);
    let ext: [u8; 6] = [46u8, 112, 97, 116, 99, 104];
    assert(ext@ =~= patch_extension());
    bytes_start_with(bytes, prefix.as_slice()) && bytes_end_with(bytes, ext.as_slice())
}

/// The first position in `names` that holds patch `k`, if any does.
pub fn find_patch(names: &Vec<String>, k: usize) -> (r: Option<usize>)
    ensures
        r is None <==> !has_patch(names@, k as nat),
        r is Some ==> is_first_patch_at(names@, k as nat, r->Some_0 as int),
{
    let mut i: usize = 0;
    while i < names.len()
        invariant
            i <= names@.len(),
            forall|q: int| 0 <= q < i ==> !is_patch_name(#[trigger] utf8_of(&names@[q]), k as nat),
        decreases names@.len() - i,
    {
        if names_patch(&names[i], k) {
            return Some(i);
        }
        i += 1;
    }
    None
}

/// Locates the first patch of a generated series (`0001-*.patch`).
pub fn find_first_patch(names: &Vec<String>) -> (r: Result<usize, SubmitError>)
    ensures
        r is Err <==> !has_patch(names@, 1),
        r is Ok ==> is_first_patch_at(names@, 1, r->Ok_0 as int),
        r is Err ==> r->Err_0 == SubmitError::FirstPatchNotFound,
{
    match find_patch(names, 1) {
        Some(i) => Ok(i),
        None => Err(SubmitError::FirstPatchNotFound),
    }
}

/// Puts the generated patch files of a series of `count` commits in commit
/// order, oldest first: the `k`-th entry is the first name of patch `k`.
pub fn order_patch_files(count: usize, names: &Vec<String>) -> (r: Result<Vec<String>, SubmitError>)
    ensures
        r is Ok <==> (forall|k: nat| 1 <= k <= count ==> #[trigger] has_patch(names@, k)),
        r is Ok ==> r->Ok_0@.len() == count && forall|j: int|
            0 <= j < count ==> is_patch_file(names@, (j + 1) as nat, #[trigger] r->Ok_0@[j]),
        r is Err ==> exists|s: usize|
            r->Err_0 == (SubmitError::MissingPatchFile { sequence: s }) && 1 <= s <= count
                && !has_patch(names@, s as nat) && forall|k: nat|
                1 <= k < s ==> #[trigger] has_patch(names@, k),
{
    let mut r: Vec<String> = Vec::new();
    let mut k: usize = 1;
    while k <= count
        invariant
            1 <= k,
            k <= count + 1,
            r@.len() == k - 1,
            forall|q: nat| 1 <= q < k ==> #[trigger] has_patch(names@, q),
            forall|j: int|
                0 <= j < k - 1 ==> is_patch_file(names@, (j + 1) as nat, #[trigger] r@[j]),
        decreases count + 1 - k,
    {
        match find_patch(names, k) {
            Some(m) => {
                let name = names[m].clone();
                let ghost old_r = r@;
                r.push(name);
                assert forall|j: int| 0 <= j < k implies is_patch_file(
                    names@,
                    (j + 1) as nat,
                    #[trigger] r@[j],
                ) by {
                    if j < k - 1 {
                        assert(r@[j] == old_r[j]);
                    } else {
                        assert(is_first_patch_at(names@, (j + 1) as nat, m as int));
                        assert(r@[j]@ == names@[m as int]@);
                    }
                }
                if k == usize::MAX {
                    return Ok(r);
                }
                k += 1;
            },
            None => {
                return Err(SubmitError::MissingPatchFile { sequence: k });
            },
        }
    }
    Ok(r)
}

} // verus!
