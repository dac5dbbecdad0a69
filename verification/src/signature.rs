//! Provenance signatures: a stable identifier built from a code-revision
//! marker, a content hash of the configuration, and the numeric seed.
//!
//! Each source is best-effort — an unavailable revision or unreadable
//! configuration contributes an empty string rather than failing the run.
//! The stored hash list is immutable after construction; the output
//! directory name joins it with `"_"`, the on-image watermark title with
//! `" - "`, and both are pure functions of the list.

use vstd::prelude::*;

verus! {

use vstd::string::StringExecFns;

/// The parts joined with `sep` between each two.
pub open spec fn join_with(parts: Seq<Seq<char>>, sep: Seq<char>) -> Seq<char>
    decreases parts.len(),
{
    if parts.len() == 0 {
        Seq::empty()
    } else if parts.len() == 1 {
        parts[0]
    } else {
        parts[0] + sep + join_with(parts.skip(1), sep)
    }
}

/// Appending one part extends the join by a separator and that part
/// (or is that part alone, if nothing was there).
pub proof fn lemma_join_push(parts: Seq<Seq<char>>, sep: Seq<char>, last: Seq<char>)
    ensures
        join_with(parts.push(last), sep) == if parts.len() == 0 {
            last
        } else {
            join_with(parts, sep) + sep + last
        },
    decreases parts.len(),
{
    let all = parts.push(last);
    if parts.len() == 0 {
        assert(all.len() == 1);
        assert(join_with(all, sep) == all[0]);
        assert(all[0] == last);
    } else if parts.len() == 1 {
        assert(all.skip(1) =~= seq![last]);
        assert(join_with(all, sep) == all[0] + sep + join_with(all.skip(1), sep));
        assert(join_with(seq![last], sep) == last);
        assert(join_with(parts, sep) == parts[0]);
        assert(all[0] == parts[0]);
    } else {
        lemma_join_push(parts.skip(1), sep, last);
        assert(all.skip(1) =~= parts.skip(1).push(last));
        assert(join_with(all, sep) == all[0] + sep + join_with(all.skip(1), sep));
        assert(join_with(parts, sep) == parts[0] + sep + join_with(parts.skip(1), sep));
        assert(all[0] == parts[0]);
        assert(all[0] + sep + (join_with(parts.skip(1), sep) + sep + last) =~= (parts[0] + sep
            + join_with(parts.skip(1), sep)) + sep + last);
    }
}

/// Joins the strings with `sep` between each two.
fn join_strings(parts: &Vec<String>, sep: &str) -> (r: String)
    ensures
        r@ == join_with(parts@.map_values(|p: String| p@), sep@),
{
    let ghost views = parts@.map_values(|p: String| p@);
    let mut out = String::new();
    let mut i: usize = 0;
    while i < parts.len()
        invariant
            i <= parts@.len(),
            views == parts@.map_values(|p: String| p@),
            out@ == join_with(views.take(i as int), sep@),
        decreases parts@.len() - i,
    {
        if i > 0 {
            out.append(sep);
        }
        out.append(parts[i].as_str());
        proof {
            lemma_join_push(views.take(i as int), sep@, views[i as int]);
            assert(views.take(i + 1) =~= views.take(i as int).push(views[i as int]));
            if i == 0 {
                assert(out@ =~= views[0]);
            }
        }
        i = i + 1;
    }
    proof {
        assert(views.take(views.len() as int) =~= views);
    }
    out
}

/// A reproducibility tag: the ordered hash strings of one run.
pub struct Signature {
    hashes: Vec<String>,
}

impl View for Signature {
    type V = Seq<Seq<char>>;

    closed spec fn view(&self) -> Seq<Seq<char>> {
        self.hashes@.map_values(|p: String| p@)
    }
}

impl Signature {
    /// Wraps the ordered hash list; it is never recomputed afterwards.
    pub fn new(hashes: Vec<String>) -> (r: Signature)
        ensures
            r@ == hashes@.map_values(|p: String| p@),
    {
        Signature { hashes }
    }

    /// The output directory name: the hashes joined with `"_"`.
    pub fn generate_filename(&self) -> (r: String)
        ensures
            r@ == join_with(self@, "_"@),
    {
        join_strings(&self.hashes, "_")
    }

    /// The watermark title: the hashes joined with `" - "`.
    pub fn generate_title(&self) -> (r: String)
        ensures
            r@ == join_with(self@, " - "@),
    {
        join_strings(&self.hashes, " - ")
    }
}

/// The character of one decimal digit.
pub open spec fn digit_char(d: nat) -> char {
    if d == 0 {
        '0'
    } else if d == 1 {
        '1'
    } else if d == 2 {
        '2'
    } else if d == 3 {
        '3'
    } else if d == 4 {
        '4'
    } else if d == 5 {
        '5'
    } else if d == 6 {
        '6'
    } else if d == 7 {
        '7'
    } else if d == 8 {
        '8'
    } else {
        '9'
    }
}

/// The decimal digits of `n`, most significant first.
pub open spec fn dec_digits(n: nat) -> Seq<char>
    decreases n,
{
    if n < 10 {
        seq![digit_char(n)]
    } else {
        dec_digits(n / 10).push(digit_char(n % 10))
    }
}

fn digit_str(d: u64) -> (r: &'static str)
    requires
        d < 10,
    ensures
        r@ =~= seq![digit_char(d as nat)],
{
    proof {
        reveal_strlit("0");
        reveal_strlit("1");
        reveal_strlit("2");
        reveal_strlit("3");
        reveal_strlit("4");
        reveal_strlit("5");
        reveal_strlit("6");
        reveal_strlit("7");
        reveal_strlit("8");
        reveal_strlit("9");
    }
    match d {
        0 => "0",
        1 => "1",
        2 => "2",
        3 => "3",
        4 => "4",
        5 => "5",
        6 => "6",
        7 => "7",
        8 => "8",
        _ => "9",
    }
}

/// The seed's contribution to the signature: its decimal digits.
pub fn generate_seed_hash(seed: u64) -> (r: String)
    ensures
        r@ == dec_digits(seed as nat),
    decreases seed,
{
    if seed < 10 {
        String::from_str(digit_str(seed))
    } else {
        let mut s = generate_seed_hash(seed / 10);
        s.append(digit_str(seed % 10));
        proof {
            assert(dec_digits((seed / 10) as nat) + seq![digit_char((seed % 10) as nat)]
                =~= dec_digits((seed / 10) as nat).push(digit_char((seed % 10) as nat)));
        }
        s
    }
}

/// What the configuration bytes hash to, as produced by the outside
/// digest.
pub uninterp spec fn sha256_hex(bytes: Seq<u8>) -> Seq<char>;

/// Relies on sha256::digest over a byte vector: the 64 hexadecimal
/// digits of the SHA-256 of the bytes, a function of the bytes alone.
#[verifier::external_body]
fn digest_bytes_hex(bytes: &Vec<u8>) -> (r: String)
    ensures
        r@ == sha256_hex(bytes@),
        r@.len() == 64,
{
    sha256::digest(bytes)
}

/// Relies on last_git_commit::LastGitCommit::new().build() and
/// Id::short(): the seven leading characters of the head commit hash of
/// the repository at the working directory, or the empty string where no
/// repository or commit can be read. The result depends on what is on
/// disk, so nothing more is promised of it.
#[verifier::external_body]
pub fn generate_git_hash() -> (r: String)
    ensures
        r@.len() == 0 || r@.len() == 7,
{
    last_git_commit::LastGitCommit::new()
        .build()
        .ok()
        .map(|commit| commit.id().short())
        .unwrap_or(String::new())
}

/// Builds the run's signature from the revision marker, the
/// configuration bytes and the seed: exactly the three hash strings, in
/// provenance order.
pub fn build_signature(revision: String, config_bytes: &Vec<u8>, seed: u64) -> (r: Signature)
    ensures
        r@ =~= seq![revision@, sha256_hex(config_bytes@), dec_digits(seed as nat)],
{
    let config_hash = digest_bytes_hex(config_bytes);
    let seed_hash = generate_seed_hash(seed);
    let mut hashes: Vec<String> = Vec::new();
    hashes.push(revision);
    hashes.push(config_hash);
    hashes.push(seed_hash);
    Signature::new(hashes)
}

/// The filename and the title are pure functions of the three hashes:
/// each is the first hash, the separator, the second hash, the
/// separator, and the seed hash — so two runs differing only in the
/// seed produce names that agree up to the final component and differ
/// exactly there.
pub proof fn lemma_signature_pure(a: Seq<char>, b: Seq<char>, s1: Seq<char>, s2: Seq<char>, sep: Seq<char>)
    ensures
        join_with(seq![a, b, s1], sep) == (a + sep + b + sep) + s1,
        join_with(seq![a, b, s2], sep) == (a + sep + b + sep) + s2,
{
    lemma_join_three(a, b, s1, sep);
    lemma_join_three(a, b, s2, sep);
}

proof fn lemma_join_three(a: Seq<char>, b: Seq<char>, c: Seq<char>, sep: Seq<char>)
    ensures
        join_with(seq![a, b, c], sep) == (a + sep + b + sep) + c,
{
    let parts = seq![a, b, c];
    assert(parts.skip(1) =~= seq![b, c]);
    assert(seq![b, c].skip(1) =~= seq![c]);
    assert(join_with(seq![c], sep) == c);
    assert(join_with(seq![b, c], sep) == b + sep + c);
    assert(join_with(parts, sep) == a + sep + (b + sep + c));
    assert(a + sep + (b + sep + c) =~= (a + sep + b + sep) + c);
}

} // verus!
