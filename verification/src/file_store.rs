//! Where stored files live on disk, how an upload form is read, and how files are
//! described for download.
use vstd::prelude::*;

use vstd::arithmetic::power2::{
    lemma2_to64, lemma_pow2_pos, lemma_pow2_strictly_increases, lemma_pow2_unfold, pow2,
};

use crate::order::{stable_sort_by_keys, stably_sorted};
use crate::text::{
    chars_of, decimal, digit_char, push_chars, push_decimal, push_str, starts_with, starts_with_seq,
    string_of, trim, trim_seq,
};

verus! {

/// The directory that stored files live under.
pub const STORAGE_DIR: &'static str = "_catch/files";

/// The storage directory.
pub fn get_storage_dir() -> (r: String)
    ensures
        r@ == STORAGE_DIR@,
{
    String::from_str(STORAGE_DIR)
}

/// The directories that a custom path names, as a path suffix: each non-empty
/// `/`-separated piece of `s`, in order, with a `/` before it.
pub open spec fn dir_suffix(s: Seq<char>, in_piece: bool) -> Seq<char>
    decreases s.len(),
{
    if s.len() == 0 {
        Seq::empty()
    } else if s[0] == '/' {
        dir_suffix(s.drop_first(), false)
    } else {
        (if in_piece {
            seq![s[0]]
        } else {
            seq!['/', s[0]]
        }) + dir_suffix(s.drop_first(), true)
    }
}

/// Where a file is stored: `filename` under the storage directory and the
/// directories of the custom path. As with `Path::join`, an absolute file name
/// (one that starts with `/`) stands for itself.
pub open spec fn file_path_of(filename: Seq<char>, custom_path: Option<Seq<char>>) -> Seq<char> {
    if starts_with_seq(filename, seq!['/']) {
        filename
    } else {
        STORAGE_DIR@ + (match custom_path {
            Some(c) => dir_suffix(c, false),
            None => Seq::empty(),
        }) + seq!['/'] + filename
    }
}

/// A relative file name is stored below the storage directory, whatever the custom
/// path: the result begins with the storage directory and a `/`.
pub proof fn law_relative_names_stay_in_storage(filename: Seq<char>, custom_path: Option<Seq<char>>)
    requires
        !starts_with_seq(filename, seq!['/']),
    ensures
        starts_with_seq(file_path_of(filename, custom_path), STORAGE_DIR@),
        file_path_of(filename, custom_path).len() > STORAGE_DIR@.len(),
{
    let suffix = match custom_path {
        Some(c) => dir_suffix(c, false),
        None => Seq::empty(),
    };
    let r = file_path_of(filename, custom_path);
    assert(r == STORAGE_DIR@ + suffix + seq!['/'] + filename);
    assert(r.subrange(0, STORAGE_DIR@.len() as int) =~= STORAGE_DIR@);
}

/// Appends the directory suffix of the custom path `c` to `out`.
fn push_dir_suffix(out: &mut Vec<char>, c: &str)
    ensures
        final(out)@ == old(out)@ + dir_suffix(c@, false),
{
    let v = chars_of(c);
    let ghost start = out@;
    let mut in_piece = false;
    let mut i: usize = 0;
    assert(v@.skip(0) =~= v@);
    while i < v.len()
        invariant
            i <= v.len(),
            v@ == c@,
            out@ + dir_suffix(v@.skip(i as int), in_piece) == start + dir_suffix(v@, false),
        decreases v.len() - i,
    {
        let ghost rest = v@.skip(i as int);
        assert(rest.drop_first() =~= v@.skip(i + 1));
        assert(rest[0] == v@[i as int]);
        if v[i] == '/' {
            in_piece = false;
        } else {
            if !in_piece {
                out.push('/');
            }
            out.push(v[i]);
            in_piece = true;
        }
        i = i + 1;
    }
    assert(v@.skip(i as int) =~= Seq::<char>::empty());
    assert(out@ =~= out@ + Seq::<char>::empty());
}

/// Where a file is stored, given its name and an optional custom directory path.
pub fn get_file_path(filename: &str, custom_path: Option<&str>) -> (r: String)
    ensures
        r@ == file_path_of(
            filename@,
            match custom_path {
                Some(c) => Some(c@),
                None => None,
            },
        ),
{
    proof {
        reveal_strlit("/");
        assert("/"@ =~= seq!['/']);
    }
    if starts_with(filename, "/") {
        return String::from_str(filename);
    }
    let mut out: Vec<char> = Vec::new();
    push_chars(&mut out, STORAGE_DIR);
    match custom_path {
        Some(c) => push_dir_suffix(&mut out, c),
        None => {},
    }
    let ghost dir = out@;
    out.push('/');
    push_chars(&mut out, filename);
    assert(out@ =~= dir + seq!['/'] + filename@);
    string_of(&out)
}

/// The text of `p` after its last `/` (all of `p` when it has none).
pub open spec fn trailing_piece(p: Seq<char>) -> Seq<char>
    decreases p.len(),
{
    if p.len() == 0 || p.last() == '/' {
        Seq::empty()
    } else {
        trailing_piece(p.drop_last()).push(p.last())
    }
}

/// The trailing piece is a suffix of the path, with a `/` (or nothing) before it.
pub proof fn lemma_trailing_piece(p: Seq<char>)
    ensures
        trailing_piece(p).len() <= p.len(),
        trailing_piece(p) == p.skip(p.len() - trailing_piece(p).len()),
        trailing_piece(p).len() < p.len() ==> p[p.len() - trailing_piece(p).len() - 1] == '/',
    decreases p.len(),
{
    if p.len() > 0 && p.last() != '/' {
        lemma_trailing_piece(p.drop_last());
        let t = trailing_piece(p.drop_last());
        assert(p.drop_last().skip(p.len() - 1 - t.len()).push(p.last()) =~= p.skip(
            p.len() - 1 - t.len(),
        ));
    } else {
        assert(p.skip(p.len() as int) =~= Seq::<char>::empty());
    }
}

/// The last component of a path that is neither empty nor `.`, as `Path::components`
/// yields them.
pub open spec fn last_component(p: Seq<char>) -> Option<Seq<char>>
    decreases p.len(),
{
    let t = trailing_piece(p);
    if t.len() > 0 && t != seq!['.'] {
        Some(t)
    } else if t.len() >= p.len() {
        None
    } else {
        proof {
            lemma_trailing_piece(p);
        }
        last_component(p.take(p.len() - t.len() - 1))
    }
}

/// The final component of a path (`Path::file_name`): none when the path ends in
/// `..` or has no component that names something.
pub open spec fn file_name_of(p: Seq<char>) -> Option<Seq<char>> {
    match last_component(p) {
        Some(t) => if t == seq!['.', '.'] {
            None
        } else {
            Some(t)
        },
        None => None,
    }
}

/// `trailing_piece` of `v[..e]`, found by scanning back from `e`.
fn trailing_start(v: &Vec<char>, e: usize) -> (j: usize)
    requires
        e <= v.len(),
    ensures
        j <= e,
        trailing_piece(v@.take(e as int)) == v@.subrange(j as int, e as int),
{
    let mut j = e;
    while j > 0 && v[j - 1] != '/'
        invariant
            j <= e <= v.len(),
            forall|k: int| j <= k < e ==> v@[k] != '/',
        decreases j,
    {
        j = j - 1;
    }
    proof {
        lemma_trailing_scan(v@, j as int, e as int);
    }
    j
}

proof fn lemma_trailing_scan(v: Seq<char>, j: int, e: int)
    requires
        0 <= j <= e <= v.len(),
        forall|k: int| j <= k < e ==> v[k] != '/',
        j == 0 || v[j - 1] == '/',
    ensures
        trailing_piece(v.take(e)) == v.subrange(j, e),
    decreases e - j,
{
    if e > j {
        lemma_trailing_scan(v, j, e - 1);
        assert(v.take(e).drop_last() =~= v.take(e - 1));
        assert(v.subrange(j, e) =~= v.subrange(j, e - 1).push(v[e - 1]));
    } else {
        if e > 0 {
            assert(v.take(e).last() == v[e - 1]);
        }
        assert(v.subrange(j, e) =~= Seq::<char>::empty());
    }
}

/// The final component of a path (`Path::file_name`).
pub fn file_name(path: &str) -> (r: Option<String>)
    ensures
        match r {
            Some(n) => file_name_of(path@) == Some(n@),
            None => file_name_of(path@) is None,
        },
{
    let v = chars_of(path);
    let mut e = v.len();
    assert(v@.take(e as int) =~= v@);
    loop
        invariant
            e <= v.len(),
            v@ == path@,
            last_component(path@) == last_component(v@.take(e as int)),
        decreases e,
    {
        let j = trailing_start(&v, e);
        let ghost p = v@.take(e as int);
        let is_dot = e - j == 1 && v[j] == '.';
        proof {
            assert(p.len() == e);
            if e - j == 1 {
                assert(v@.subrange(j as int, e as int) =~= seq![v@[j as int]]);
            }
        }
        if j < e && !is_dot {
            let mut name: Vec<char> = Vec::new();
            crate::text::push_range(&mut name, &v, j, e);
            let is_dotdot = e - j == 2 && v[j] == '.' && v[j + 1] == '.';
            proof {
                assert(name@ =~= v@.subrange(j as int, e as int));
                assert(trailing_piece(p) == name@);
                if name@ == seq!['.'] {
                    assert(name@[0] == v@[j as int]);
                    assert(false);
                }
                if e - j == 2 {
                    assert(name@ =~= seq![v@[j as int], v@[j + 1]]);
                }
                assert(last_component(p) == Some(name@));
            }
            if is_dotdot {
                return None;
            }
            return Some(string_of(&name));
        }
        if j == 0 {
            assert(last_component(p) is None);
            return None;
        }
        proof {
            lemma_trailing_piece(p);
            assert(p.take(p.len() - (e - j) - 1) =~= v@.take(j - 1));
        }
        e = j - 1;
    }
}

/// The file name a download is offered under: the path's final component, or
/// `download` when it has none.
pub open spec fn download_name(p: Seq<char>) -> Seq<char> {
    match file_name_of(p) {
        Some(n) => n,
        None => "download"@,
    }
}

/// The content type that `mime_guess` gives for a path (from its extension, with
/// `application/octet-stream` for unknown ones).
pub uninterp spec fn mime_for_path(p: Seq<char>) -> Seq<char>;

/// `mime_guess::from_path(path).first_or_octet_stream().to_string()`. The contract
/// names the result, a function of the path alone (mime_guess's static table of
/// extensions); the table is not restated here.
#[verifier::external_body]
fn guess_content_type(path: &str) -> (r: String)
    ensures
        r@ == mime_for_path(path@),
{
    mime_guess::from_path(path).first_or_octet_stream().to_string()
}

/// The headers a download is answered with: its content type, and a
/// `Content-Disposition` that offers it as an attachment under its file name.
pub fn download_headers(file_path: &str) -> (r: (String, String))
    ensures
        r.0@ == mime_for_path(file_path@),
        r.1@ == "attachment; filename=\""@ + download_name(file_path@) + "\""@,
{
    let content_type = guess_content_type(file_path);
    let name = match file_name(file_path) {
        Some(n) => n,
        None => String::from_str("download"),
    };
    let mut disposition = String::from_str("attachment; filename=\"");
    push_str(&mut disposition, name.as_str());
    push_str(&mut disposition, "\"");
    (content_type, disposition)
}

/// The number of binary digits of `n`.
pub open spec fn bits(n: nat) -> nat
    decreases n,
{
    if n == 0 {
        0
    } else {
        1 + bits(n / 2)
    }
}

/// `n / d` rounded to the nearest integer, ties to the even one.
pub open spec fn round_half_even(n: nat, d: nat) -> nat {
    let q = n / d;
    let r = n % d;
    if 2 * r > d || (2 * r == d && q % 2 == 1) {
        q + 1
    } else {
        q
    }
}

/// The value of `n as f64`: `n` rounded to 53 significant bits, ties to even.
pub open spec fn as_f64(n: nat) -> nat {
    if bits(n) <= 53 {
        n
    } else {
        round_half_even(n, pow2((bits(n) - 53) as nat)) * pow2((bits(n) - 53) as nat)
    }
}

/// A count of hundredths written with two decimals, as `{:.2}` writes it.
pub open spec fn two_decimals(h: nat) -> Seq<char> {
    decimal(h / 100) + seq!['.', digit_char((h % 100) / 10), digit_char(h % 10)]
}

/// `size / unit` written with two decimals (`format!("{:.2}", size as f64 / unit as f64)`,
/// which rounds the exact quotient of the two floats to the nearest hundredth, ties
/// to even).
pub open spec fn scaled(size: nat, unit: nat) -> Seq<char> {
    two_decimals(round_half_even(100 * as_f64(size), unit))
}

/// A file size in the largest binary unit (KB, MB, GB of 1024) it reaches.
pub open spec fn file_size_text(size: nat) -> Seq<char> {
    if size >= 1073741824 {
        scaled(size, 1073741824) + " GB"@
    } else if size >= 1048576 {
        scaled(size, 1048576) + " MB"@
    } else if size >= 1024 {
        scaled(size, 1024) + " KB"@
    } else {
        decimal(size) + " B"@
    }
}

proof fn lemma_bits_bound(n: nat, k: nat)
    requires
        n < pow2(k),
    ensures
        bits(n) <= k,
    decreases k,
{
    if n > 0 {
        if k == 0 {
            lemma2_to64();
        } else {
            lemma_pow2_unfold(k);
            lemma_bits_bound(n / 2, (k - 1) as nat);
        }
    }
}

/// `n as f64`, as the integer it equals.
fn f64_value(n: u64) -> (r: u128)
    ensures
        r == as_f64(n as nat),
        r <= 0x1_0000_0000_0000_0800u128,
{
    proof {
        lemma2_to64();
        lemma_bits_bound(n as nat, 64);
    }
    let mut m = n;
    let mut b: u64 = 0;
    while m > 0
        invariant
            bits(n as nat) == b + bits(m as nat),
            bits(n as nat) <= 64,
        decreases m,
    {
        m = m / 2;
        b = b + 1;
    }
    if b <= 53 {
        return n as u128;
    }
    let s = b - 53;
    let mut p: u128 = 1;
    let mut k: u64 = 0;
    proof {
        lemma2_to64();
    }
    while k < s
        invariant
            k <= s <= 11,
            p == pow2(k as nat),
            pow2(11) == 2048,
        decreases s - k,
    {
        proof {
            lemma_pow2_unfold((k + 1) as nat);
            lemma_pow2_strictly_increases(k as nat, 11);
        }
        p = p * 2;
        k = k + 1;
    }
    proof {
        lemma_pow2_pos(s as nat);
        if s < 11 {
            lemma_pow2_strictly_increases(s as nat, 11);
        }
    }
    let nn = n as u128;
    let q = nn / p;
    let rem = nn % p;
    let q1 = if 2 * rem > p || (2 * rem == p && q % 2 == 1) {
        q + 1
    } else {
        q
    };
    proof {
        vstd::arithmetic::div_mod::lemma_fundamental_div_mod(nn as int, p as int);
        assert(q1 * p <= nn + p) by (nonlinear_arith)
            requires
                q1 <= q + 1,
                p > 0,
                nn == p * q + rem,
                rem >= 0,
        ;
    }
    q1 * p
}

/// `round_half_even(100 * as_f64(size), unit)`.
fn scaled_hundredths(size: u64, unit: u128) -> (h: u64)
    requires
        1024 <= unit <= 1073741824,
    ensures
        h == round_half_even(100 * as_f64(size as nat), unit as nat),
{
    let f = f64_value(size);
    let scaled = 100 * f;
    let q = scaled / unit;
    let rem = scaled % unit;
    proof {
        assert(q * 1024 <= scaled) by (nonlinear_arith)
            requires
                unit >= 1024,
                q == scaled / unit,
                scaled >= 0,
        ;
    }
    if 2 * rem > unit || (2 * rem == unit && q % 2 == 1) {
        (q + 1) as u64
    } else {
        q as u64
    }
}

/// Appends a count of hundredths written with two decimals.
fn push_two_decimals(out: &mut Vec<char>, h: u64)
    ensures
        final(out)@ == old(out)@ + two_decimals(h as nat),
{
    let frac = h % 100;
    push_decimal(out, h / 100);
    let ghost mid = out@;
    out.push('.');
    out.push(((48 + frac / 10) as u8) as char);
    out.push(((48 + frac % 10) as u8) as char);
    assert(out@ =~= mid + seq!['.', digit_char((h % 100) as nat / 10), digit_char(h as nat % 10)]);
}

/// The role of a field of the upload form.
#[derive(Debug, Clone, Copy, PartialEq, Eq, Structural)]
pub enum FormField {
    File,
    CustomPath,
    Other,
}

/// The mathematical content of an upload form read so far.
pub struct UploadFormModel {
    pub filename: Seq<char>,
    pub custom_path: Option<Seq<char>>,
    pub data: Seq<u8>,
}

/// An upload form, read field by field and chunk by chunk as the multipart body
/// arrives: the `file` field gives the file name and its bytes, the `custom_path`
/// field the optional directory, and other fields are ignored.
pub struct UploadForm {
    filename: String,
    custom_path: Option<String>,
    data: Vec<u8>,
}

impl View for UploadForm {
    type V = UploadFormModel;

    closed spec fn view(&self) -> UploadFormModel {
        UploadFormModel {
            filename: self.filename@,
            custom_path: match self.custom_path {
                Some(c) => Some(c@),
                None => None,
            },
            data: self.data@,
        }
    }
}

impl UploadForm {
    /// A form with nothing read yet.
    pub fn new() -> (r: Self)
        ensures
            r@.filename == Seq::<char>::empty(),
            r@.custom_path is None,
            r@.data == Seq::<u8>::empty(),
    {
        UploadForm { filename: String::new(), custom_path: None, data: Vec::new() }
    }

    /// Starts a field: the `file` field sets the file name (from its content
    /// disposition, `upload` when it gives none); the role of the field is returned.
    pub fn begin_field(&mut self, field_name: &str, disposition_filename: Option<&str>) -> (r: FormField)
        ensures
            field_name@ == "file"@ ==> r == FormField::File && final(self)@.filename == (
            match disposition_filename {
                Some(f) => f@,
                None => "upload"@,
            }) && final(self)@.custom_path == old(self)@.custom_path && final(self)@.data == old(
                self,
            )@.data,
            field_name@ != "file"@ ==> final(self)@ == old(self)@,
            field_name@ == "custom_path"@ ==> r == FormField::CustomPath,
            field_name@ != "file"@ && field_name@ != "custom_path"@ ==> r == FormField::Other,
    {
        proof {
            reveal_strlit("file");
            reveal_strlit("custom_path");
            assert("custom_path"@.len() != "file"@.len());
        }
        if crate::text::str_eq(field_name, "file") {
            self.filename = match disposition_filename {
                Some(f) => String::from_str(f),
                None => String::from_str("upload"),
            };
            FormField::File
        } else if crate::text::str_eq(field_name, "custom_path") {
            FormField::CustomPath
        } else {
            FormField::Other
        }
    }

    /// A chunk of the file's bytes.
    pub fn add_file_chunk(&mut self, chunk: &[u8])
        ensures
            final(self)@.data == old(self)@.data + chunk@,
            final(self)@.filename == old(self)@.filename,
            final(self)@.custom_path == old(self)@.custom_path,
    {
        let mut i: usize = 0;
        let ghost start = self.data@;
        while i < chunk.len()
            invariant
                i <= chunk.len(),
                self.data@ == start + chunk@.take(i as int),
                self.filename == old(self).filename,
                self.custom_path == old(self).custom_path,
            decreases chunk.len() - i,
        {
            self.data.push(chunk[i]);
            assert(chunk@.take(i + 1) =~= chunk@.take(i as int).push(chunk@[i as int]));
            i = i + 1;
        }
        assert(chunk@.take(chunk.len() as int) =~= chunk@);
    }

    /// A chunk of the custom path field (as text): when it is not blank, it becomes
    /// the custom path, trimmed.
    pub fn add_custom_path_chunk(&mut self, text: &str)
        ensures
            trim_seq(text@).len() > 0 ==> final(self)@.custom_path == Some(trim_seq(text@)),
            trim_seq(text@).len() == 0 ==> final(self)@.custom_path == old(self)@.custom_path,
            final(self)@.filename == old(self)@.filename,
            final(self)@.data == old(self)@.data,
    {
        let t = trim(text);
        if !t.as_str().is_empty() {
            self.custom_path = Some(t);
        }
    }

    /// The bytes of the file read so far.
    pub fn data(&self) -> (r: &Vec<u8>)
        ensures
            r@ == self@.data,
    {
        &self.data
    }

    /// Where the uploaded file is to be written: none when no file name or no bytes
    /// were given, else the file's path under the storage directory and the custom path.
    pub fn target(&self) -> (r: Option<String>)
        ensures
            (self@.filename.len() == 0 || self@.data.len() == 0) ==> r is None,
            (self@.filename.len() > 0 && self@.data.len() > 0) ==> r is Some && r->0@
                == file_path_of(self@.filename, self@.custom_path),
    {
        if self.filename.as_str().is_empty() || self.data.len() == 0 {
            return None;
        }
        let custom: Option<&str> = match &self.custom_path {
            Some(c) => Some(c.as_str()),
            None => None,
        };
        Some(get_file_path(self.filename.as_str(), custom))
    }
}

/// A stored file: its path below the storage directory, and its size in bytes.
#[derive(Debug)]
pub struct FileEntry {
    pub path: String,
    pub size: u64,
}

/// The paths of a file list.
pub open spec fn paths_of(files: Seq<FileEntry>) -> Seq<Seq<char>> {
    files.map_values(|f: FileEntry| f.path@)
}

/// The file list sorted by path, ascending; files with equal paths keep their order.
pub fn sort_file_entries(files: Vec<FileEntry>) -> (r: Vec<FileEntry>)
    ensures
        exists|p: Seq<int>|
            #[trigger] stably_sorted(
                files@,
                paths_of(files@),
                r@,
                false,
                p,
            ),
{
    let mut keys: Vec<Vec<char>> = Vec::new();
    let mut i: usize = 0;
    while i < files.len()
        invariant
            i <= files.len(),
            keys.len() == i,
            forall|k: int| 0 <= k < i ==> (#[trigger] keys@[k])@ == files@[k].path@,
        decreases files.len() - i,
    {
        keys.push(chars_of(files[i].path.as_str()));
        i = i + 1;
    }
    let ghost src = files@;
    assert(keys@.map_values(|k: Vec<char>| k@) =~= paths_of(src));
    let (sorted, Ghost(p)) = stable_sort_by_keys(files, keys, false);
    assert(stably_sorted(src, paths_of(src), sorted@, false, p));
    sorted
}

/// The displayed stored files.
pub struct FileStoreView;

impl FileStoreView {
    /// A file size for display: bytes below 1 KB, else KB, MB or GB (of 1024) with
    /// two decimals.
    pub fn format_file_size(size: u64) -> (r: String)
        ensures
            r@ == file_size_text(size as nat),
    {
        let mut out: Vec<char> = Vec::new();
        if size >= 1073741824 {
            push_two_decimals(&mut out, scaled_hundredths(size, 1073741824));
            push_chars(&mut out, " GB");
        } else if size >= 1048576 {
            push_two_decimals(&mut out, scaled_hundredths(size, 1048576));
            push_chars(&mut out, " MB");
        } else if size >= 1024 {
            push_two_decimals(&mut out, scaled_hundredths(size, 1024));
            push_chars(&mut out, " KB");
        } else {
            push_decimal(&mut out, size);
            push_chars(&mut out, " B");
        }
        string_of(&out)
    }
}

} // verus!
