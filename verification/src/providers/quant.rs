//! Quantization marks in the names of model files.
use vstd::prelude::*;
use crate::outside;
use crate::text;

verus! {

// ---------------------------------------------------------------------------
// GGUF
// ---------------------------------------------------------------------------

/// The quantization marks of GGUF files, in the order in which they are looked for. A mark
/// names a family: `-q4_k` stands for every variant of it.
pub open spec fn gguf_marks() -> Seq<&'static str> {
    seq![
        "-q8_0", "-q8_k", "-q6_k", "-q5_k", "-q4_k", "-q4_0", "-q3_k", "-q2_k", "-iq4_", "-iq3_",
        "-iq2_", "-iq1_", "-f16", "-f32", "-bf16", ".q8_0", ".q6_k", ".q5_k", ".q4_k", ".q4_0",
        ".q3_k", ".q2_k",
    ]
}

/// `s` without `p` at its end, or `s` itself.
pub open spec fn drop_suffix(s: Seq<char>, p: Seq<char>) -> Seq<char> {
    match text::without_suffix(s, p) {
        Some(t) => t,
        None => s,
    }
}

/// The name before the last occurrence of the first mark at or after number `k` that
/// stands in `stem`, without the mark `-ud` of dynamic quantizations.
pub open spec fn gguf_base_from(stem: Seq<char>, k: int) -> Option<Seq<char>>
    decreases gguf_marks().len() - k,
{
    if k < 0 || k >= gguf_marks().len() {
        None
    } else {
        match text::rfind(stem, gguf_marks()[k]@) {
            Some(i) => Some(drop_suffix(stem.take(i), "-ud"@)),
            None => gguf_base_from(stem, k + 1),
        }
    }
}

/// The model name that the stem of a GGUF file gives without its quantization mark.
pub open spec fn gguf_base(stem: Seq<char>) -> Option<Seq<char>> {
    gguf_base_from(stem, 0)
}

/// Takes the quantization mark off the stem of a GGUF file:
/// `llama-3.1-8b-instruct-q4_k_m` becomes `llama-3.1-8b-instruct`.
pub fn strip_gguf_quant_suffix(stem: &str) -> (r: Option<String>)
    ensures
        text::opt_text(r) == gguf_base(stem@),
{
    let marks = [
        "-q8_0", "-q8_k", "-q6_k", "-q5_k", "-q4_k", "-q4_0", "-q3_k", "-q2_k", "-iq4_", "-iq3_",
        "-iq2_", "-iq1_", "-f16", "-f32", "-bf16", ".q8_0", ".q6_k", ".q5_k", ".q4_k", ".q4_0",
        ".q3_k", ".q2_k",
    ];
    assert(marks@ == gguf_marks());
    for k in 0..marks.len()
        invariant
            marks@ == gguf_marks(),
            gguf_base(stem@) == gguf_base_from(stem@, k as int),
    {
        if let Some(i) = text::rfind_text(stem, marks[k]) {
            let base = stem.substring_char(0, i);
            return match text::strip_suffix(base, "-ud") {
                Some(b) => Some(b.to_string()),
                None => Some(base.to_string()),
            };
        }
    }
    None
}

/// A quantization mark stands in the name.
pub open spec fn has_mark(s: Seq<char>) -> bool {
    exists|k: int, i: int|
        #![trigger text::occurs_at(s, gguf_marks()[k]@, i)]
        0 <= k < gguf_marks().len() && text::occurs_at(s, gguf_marks()[k]@, i)
}

/// The text holds neither a dash nor a dot.
pub open spec fn no_joint(s: Seq<char>) -> bool {
    forall|i: int| 0 <= i < s.len() ==> (#[trigger] s[i]) != '-' && s[i] != '.'
}

proof fn lemma_mark_shape(k: int)
    requires
        0 <= k < gguf_marks().len(),
    ensures
        ({
            let m = gguf_marks()[k]@;
            &&& m.len() >= 2
            &&& m[0] == '-' || m[0] == '.'
            &&& m[1] != 'u'
            &&& no_joint(m.skip(1))
        }),
{
    if k == 0 {
        reveal_strlit("-q8_0");
        assert(gguf_marks()[0] == "-q8_0");
    } else if k == 1 {
        reveal_strlit("-q8_k");
        assert(gguf_marks()[1] == "-q8_k");
    } else if k == 2 {
        reveal_strlit("-q6_k");
        assert(gguf_marks()[2] == "-q6_k");
    } else if k == 3 {
        reveal_strlit("-q5_k");
        assert(gguf_marks()[3] == "-q5_k");
    } else if k == 4 {
        reveal_strlit("-q4_k");
        assert(gguf_marks()[4] == "-q4_k");
    } else if k == 5 {
        reveal_strlit("-q4_0");
        assert(gguf_marks()[5] == "-q4_0");
    } else if k == 6 {
        reveal_strlit("-q3_k");
        assert(gguf_marks()[6] == "-q3_k");
    } else if k == 7 {
        reveal_strlit("-q2_k");
        assert(gguf_marks()[7] == "-q2_k");
    } else if k == 8 {
        reveal_strlit("-iq4_");
        assert(gguf_marks()[8] == "-iq4_");
    } else if k == 9 {
        reveal_strlit("-iq3_");
        assert(gguf_marks()[9] == "-iq3_");
    } else if k == 10 {
        reveal_strlit("-iq2_");
        assert(gguf_marks()[10] == "-iq2_");
    } else if k == 11 {
        reveal_strlit("-iq1_");
        assert(gguf_marks()[11] == "-iq1_");
    } else if k == 12 {
        reveal_strlit("-f16");
        assert(gguf_marks()[12] == "-f16");
    } else if k == 13 {
        reveal_strlit("-f32");
        assert(gguf_marks()[13] == "-f32");
    } else if k == 14 {
        reveal_strlit("-bf16");
        assert(gguf_marks()[14] == "-bf16");
    } else if k == 15 {
        reveal_strlit(".q8_0");
        assert(gguf_marks()[15] == ".q8_0");
    } else if k == 16 {
        reveal_strlit(".q6_k");
        assert(gguf_marks()[16] == ".q6_k");
    } else if k == 17 {
        reveal_strlit(".q5_k");
        assert(gguf_marks()[17] == ".q5_k");
    } else if k == 18 {
        reveal_strlit(".q4_k");
        assert(gguf_marks()[18] == ".q4_k");
    } else if k == 19 {
        reveal_strlit(".q4_0");
        assert(gguf_marks()[19] == ".q4_0");
    } else if k == 20 {
        reveal_strlit(".q3_k");
        assert(gguf_marks()[20] == ".q3_k");
    } else if k == 21 {
        reveal_strlit(".q2_k");
        assert(gguf_marks()[21] == ".q2_k");
    }
}

/// A mark that stands in `base + tail`, where only the first character of `tail` can join,
/// stands in `base` or where `tail` begins.
proof fn lemma_mark_place(base: Seq<char>, tail: Seq<char>, k: int, i: int)
    requires
        0 <= k < gguf_marks().len(),
        tail.len() > 0,
        tail[0] == '-' || tail[0] == '.',
        no_joint(tail.skip(1)),
        text::occurs_at(base + tail, gguf_marks()[k]@, i),
    ensures
        text::occurs_at(base, gguf_marks()[k]@, i) || i == base.len(),
{
    let m = gguf_marks()[k]@;
    let s = base + tail;
    lemma_mark_shape(k);
    let here = s.subrange(i, i + m.len());
    assert(here[0] == s[i]);
    if i > base.len() {
        assert(tail.skip(1)[i - base.len() - 1] == s[i]);
    } else if i < base.len() && i + m.len() > base.len() {
        let at = base.len() - i;
        assert(here[at] == s[base.len() as int]);
        assert(m.skip(1)[at - 1] == m[at]);
    } else if i < base.len() {
        assert(base.subrange(i, i + m.len()) =~= here);
    }
}

proof fn lemma_last_place(s: Seq<char>, p: Seq<char>, at: int, n: int)
    requires
        at < n,
        text::occurs_at(s, p, at),
        forall|i: int| #[trigger] text::occurs_at(s, p, i) ==> i == at,
    ensures
        text::rfind_before(s, p, n) == Some(at),
    decreases n,
{
    if n - 1 > at {
        assert(!text::occurs_at(s, p, n - 1));
        lemma_last_place(s, p, at, n - 1);
    }
}

proof fn lemma_nowhere(s: Seq<char>, p: Seq<char>, n: int)
    requires
        forall|i: int| !#[trigger] text::occurs_at(s, p, i),
    ensures
        text::rfind_before(s, p, n) is None,
    decreases n,
{
    if n > 0 {
        assert(!text::occurs_at(s, p, n - 1));
        lemma_nowhere(s, p, n - 1);
    }
}

proof fn lemma_no_mark_from(s: Seq<char>, k: int)
    requires
        !has_mark(s),
        0 <= k,
    ensures
        gguf_base_from(s, k) is None,
    decreases gguf_marks().len() - k,
{
    if k < gguf_marks().len() {
        lemma_nowhere(s, gguf_marks()[k]@, s.len() as int + 1);
        lemma_no_mark_from(s, k + 1);
    }
}

proof fn lemma_mark_off_from(base: Seq<char>, tail: Seq<char>, k: int, j: int)
    requires
        !has_mark(base),
        0 <= j <= k < gguf_marks().len(),
        gguf_marks()[k]@.is_prefix_of(tail),
        no_joint(tail.skip(1)),
    ensures
        gguf_base_from(base + tail, j) == Some(drop_suffix(base, "-ud"@)),
    decreases k - j,
{
    let s = base + tail;
    let at = base.len() as int;
    lemma_mark_shape(k);
    assert(tail[0] == gguf_marks()[k]@[0]);
    assert(text::occurs_at(s, gguf_marks()[k]@, at)) by {
        assert(s.subrange(at, at + gguf_marks()[k]@.len()) =~= gguf_marks()[k]@);
    }
    let m = gguf_marks()[j]@;
    assert forall|i: int| #[trigger] text::occurs_at(s, m, i) implies i == at by {
        lemma_mark_place(base, tail, j, i);
    }
    assert(s.take(at) =~= base);
    if text::occurs_at(s, m, at) {
        lemma_last_place(s, m, at, s.len() as int + 1);
    } else {
        lemma_nowhere(s, m, s.len() as int + 1);
        lemma_mark_off_from(base, tail, k, j + 1);
    }
}

/// Taking the mark off gives back the name that it was put behind, with or without the mark
/// of dynamic quantizations before it; a name without a mark has none to take off. What is put
/// behind the name is a mark, followed by anything without a dash or a dot.
pub proof fn law_stripping_undoes_marking(base: Seq<char>, tail: Seq<char>, k: int)
    requires
        !has_mark(base),
        !"-ud"@.is_suffix_of(base),
        0 <= k < gguf_marks().len(),
        gguf_marks()[k]@.is_prefix_of(tail),
        no_joint(tail.skip(1)),
    ensures
        gguf_base(base + tail) == Some(base),
        gguf_base(base + "-ud"@ + tail) == Some(base),
        gguf_base(base) is None,
{
    reveal_strlit("-ud");
    lemma_mark_off_from(base, tail, k, 0);
    lemma_no_mark_from(base, 0);
    let dynamic = base + "-ud"@;
    assert(!has_mark(dynamic)) by {
        if has_mark(dynamic) {
            let (j, i) = choose|j: int, i: int|
                #![trigger text::occurs_at(dynamic, gguf_marks()[j]@, i)]
                0 <= j < gguf_marks().len() && text::occurs_at(dynamic, gguf_marks()[j]@, i);
            assert(no_joint("-ud"@.skip(1)));
            lemma_mark_place(base, "-ud"@, j, i);
            lemma_mark_shape(j);
            if i == base.len() {
                let m = gguf_marks()[j]@;
                assert(dynamic.subrange(i, i + m.len())[1] == dynamic[i + 1]);
            } else {
                assert(has_mark(base));
            }
        }
    }
    lemma_mark_off_from(dynamic, tail, k, 0);
    assert("-ud"@.is_suffix_of(dynamic)) by {
        assert(dynamic.subrange(base.len() as int, dynamic.len() as int) =~= "-ud"@);
    }
    assert(dynamic.take(base.len() as int) =~= base);
}

// ---------------------------------------------------------------------------
// MLX
// ---------------------------------------------------------------------------

/// The quantization marks of MLX models: a bit width or `mxfp4`, each with any number of
/// variant marks behind it, or `fp16`; at the end of the name.
pub const MLX_QUANT_PATTERN: &'static str =
    "-(?:\\d+bit(?:-[a-z0-9]+)*|mxfp4(?:-[a-z0-9]+)*|fp16)$";

/// `s` without the characters `c` at either end.
pub open spec fn trim_char(s: Seq<char>, c: char) -> Seq<char> {
    text::trim_end_char(text::trim_start_char(s, c), c)
}

/// The model name that is left of `stem` when `before` is the text before its MLX
/// quantization mark: a mark that is the whole stem counts as none, then `-mlx` at the end
/// goes, then the dashes at the ends. There is no such name when nothing was taken off or
/// nothing is left.
pub open spec fn mlx_base_after(stem: Seq<char>, before: Option<Seq<char>>) -> Option<Seq<char>> {
    let without_quant = match before {
        Some(b) => if b.len() > 0 {
            b
        } else {
            stem
        },
        None => stem,
    };
    let base = match text::without_suffix(without_quant, "-mlx"@) {
        Some(b) => if b.len() > 0 {
            b
        } else {
            without_quant
        },
        None => without_quant,
    };
    let core = trim_char(base, '-');
    if base.len() == stem.len() || core.len() == 0 {
        None
    } else {
        Some(core)
    }
}

/// The text before the MLX quantization mark of `stem`.
pub open spec fn mlx_mark(stem: Seq<char>) -> Option<Seq<char>> {
    match outside::regex_found(MLX_QUANT_PATTERN@, stem) {
        Some((before, _)) => Some(before),
        None => None,
    }
}

/// The model name that an MLX stem gives without its quantization marks.
pub open spec fn mlx_base(stem: Seq<char>) -> Option<Seq<char>> {
    mlx_base_after(stem, mlx_mark(stem))
}

/// `s` without the characters `c` at either end.
pub fn trimmed_char<'a>(s: &'a str, c: char) -> (r: &'a str)
    ensures
        r@ == trim_char(s@, c),
{
    text::trimmed_end_char(text::trimmed_start_char(s, c), c)
}

/// What is left of `stem` when `before` is the text before its quantization mark.
pub fn mlx_base_of(stem: &str, before: Option<&str>) -> (r: Option<String>)
    ensures
        text::opt_text(r) == mlx_base_after(stem@, text::opt_str(before)),
{
    let without_quant: &str = match before {
        Some(b) => if b.unicode_len() > 0 {
            b
        } else {
            stem
        },
        None => stem,
    };
    let base: &str = match text::strip_suffix(without_quant, "-mlx") {
        Some(b) => if b.unicode_len() > 0 {
            b
        } else {
            without_quant
        },
        None => without_quant,
    };
    if base.unicode_len() == stem.unicode_len() {
        return None;
    }
    let core = trimmed_char(base, '-');
    if core.unicode_len() == 0 {
        None
    } else {
        Some(core.to_string())
    }
}

pub proof fn lemma_front_occurs(s: Seq<char>, n: int)
    requires
        0 <= n <= s.len(),
    ensures
        text::occurs(s, s.take(n)),
{
    assert(text::occurs_at(s, s.take(n), 0));
}

pub proof fn lemma_back_occurs(s: Seq<char>, n: int)
    requires
        0 <= n <= s.len(),
    ensures
        text::occurs(s, s.skip(n)),
{
    assert(s.subrange(n, n + s.skip(n).len()) =~= s.skip(n));
    assert(text::occurs_at(s, s.skip(n), n));
}

/// A part of a part is a part of the whole.
pub proof fn lemma_part_of_part(s: Seq<char>, p: Seq<char>, q: Seq<char>)
    requires
        text::occurs(s, p),
        text::occurs(p, q),
    ensures
        text::occurs(s, q),
{
    let i = choose|i: int| text::occurs_at(s, p, i);
    let j = choose|j: int| text::occurs_at(p, q, j);
    assert(s.subrange(i + j, i + j + q.len()) =~= p.subrange(j, j + q.len()));
    assert(text::occurs_at(s, q, i + j));
}

proof fn lemma_trimmed_start_occurs(s: Seq<char>, c: char)
    ensures
        text::occurs(s, text::trim_start_char(s, c)),
    decreases s.len(),
{
    if s.len() > 0 && s[0] == c {
        lemma_trimmed_start_occurs(s.skip(1), c);
        lemma_back_occurs(s, 1);
        lemma_part_of_part(s, s.skip(1), text::trim_start_char(s, c));
    } else {
        lemma_back_occurs(s, 0);
        assert(s.skip(0) =~= s);
    }
}

pub proof fn lemma_trimmed_end_occurs(s: Seq<char>, c: char)
    ensures
        text::occurs(s, text::trim_end_char(s, c)),
    decreases s.len(),
{
    if s.len() > 0 && s.last() == c {
        lemma_trimmed_end_occurs(s.drop_last(), c);
        lemma_front_occurs(s, s.len() - 1);
        assert(s.take(s.len() - 1) =~= s.drop_last());
        lemma_part_of_part(s, s.drop_last(), text::trim_end_char(s, c));
    } else {
        lemma_front_occurs(s, s.len() as int);
        assert(s.take(s.len() as int) =~= s);
    }
}

proof fn lemma_trimmed_occurs(s: Seq<char>, c: char)
    ensures
        text::occurs(s, trim_char(s, c)),
{
    lemma_trimmed_start_occurs(s, c);
    lemma_trimmed_end_occurs(text::trim_start_char(s, c), c);
    lemma_part_of_part(s, text::trim_start_char(s, c), trim_char(s, c));
}

/// What is left of the front of a stem without dashes stands in the stem.
proof fn lemma_trimmed_front_occurs(stem: Seq<char>, n: int)
    requires
        0 <= n <= stem.len(),
    ensures
        text::occurs(stem, trim_char(stem.take(n), '-')),
{
    lemma_front_occurs(stem, n);
    lemma_trimmed_occurs(stem.take(n), '-');
    lemma_part_of_part(stem, stem.take(n), trim_char(stem.take(n), '-'));
}

/// What is left of a stem stands in it, where the text before the mark begins the stem.
proof fn lemma_base_occurs(stem: Seq<char>, before: Option<Seq<char>>)
    requires
        before matches Some(b) ==> b.is_prefix_of(stem),
    ensures
        mlx_base_after(stem, before) matches Some(base) ==> text::occurs(stem, base),
{
    let n: int = match before {
        Some(b) => if b.len() > 0 {
            b.len() as int
        } else {
            stem.len() as int
        },
        None => stem.len() as int,
    };
    let front = stem.take(n);
    assert(before matches Some(b) ==> b.len() > 0 ==> b =~= front);
    assert(n == stem.len() ==> front =~= stem);
    let mark = "-mlx"@;
    if mark.is_suffix_of(front) && mark.len() < n {
        let m = n - mark.len();
        assert(front.take(m) =~= stem.take(m));
        lemma_trimmed_front_occurs(stem, m);
    } else {
        lemma_trimmed_front_occurs(stem, n);
    }
}

/// Takes the quantization marks off the stem of an MLX model, given in lower case:
/// `llama-3.2-1b-instruct-4bit` becomes `llama-3.2-1b-instruct`. `None` says that there was
/// nothing to take off. What is left stands in the stem.
pub fn strip_mlx_quant_suffix(stem: &str) -> (r: Option<String>)
    ensures
        text::opt_text(r) == mlx_base(stem@),
        r matches Some(base) ==> text::occurs(stem@, base@),
{
    match outside::regex_find(MLX_QUANT_PATTERN, stem) {
        Some((before, hit)) => {
            proof {
                let both = before@ + hit@;
                assert(before@ =~= stem@.take(before@.len() as int)) by {
                    assert(both =~= stem@.take(both.len() as int));
                    assert(both.take(before@.len() as int) =~= before@);
                }
                lemma_base_occurs(stem@, Some(before@));
            }
            mlx_base_of(stem, Some(before.as_str()))
        },
        None => {
            proof {
                lemma_base_occurs(stem@, None);
            }
            mlx_base_of(stem, None)
        },
    }
}

/// The catalog name of an MLX repository given in lower case, without its quantization
/// marks and without dashes at its ends.
pub open spec fn mlx_repo_base(repo: Seq<char>) -> Seq<char> {
    match mlx_base(repo) {
        Some(b) => b,
        None => trim_char(repo, '-'),
    }
}

/// The catalog name of an MLX repository given in lower case.
pub fn normalize_mlx_repo_base(repo_lower: &str) -> (r: String)
    ensures
        r@ == mlx_repo_base(repo_lower@),
        text::occurs(repo_lower@, r@),
{
    proof {
        lemma_trimmed_occurs(repo_lower@, '-');
    }
    match strip_mlx_quant_suffix(repo_lower) {
        Some(b) => b,
        None => trimmed_char(repo_lower, '-').to_string(),
    }
}

/// What is left of a name without its mark of quantization and without `-mlx` has no hyphen at
/// either end; a name with neither is left to itself.
pub proof fn law_mlx_marks_are_taken_off(stem: Seq<char>, base: Seq<char>)
    requires
        base.len() > 0,
        base[0] != '-',
        base.last() != '-',
        !"-mlx"@.is_suffix_of(base),
    ensures
        mlx_base_after(base, None) is None,
        stem.len() != base.len() ==> mlx_base_after(stem, Some(base)) == Some(base),
        stem.len() != base.len() ==> mlx_base_after(stem, Some(base + "-mlx"@)) == Some(base),
        mlx_base_after(base + "-mlx"@, None) == Some(base),
        mlx_base_after(stem, Some(base)) matches Some(r) ==> r.len() > 0 && r[0] != '-' && r.last()
            != '-',
{
    reveal_strlit("-mlx");
    text::law_ends_are_taken_off(base, '-');
    let marked = base + "-mlx"@;
    assert(marked.subrange(base.len() as int, marked.len() as int) =~= "-mlx"@);
    assert("-mlx"@.is_suffix_of(marked));
    assert(marked.take(base.len() as int) =~= base);
    assert(trim_char(base, '-') == base);
}

} // verus!
