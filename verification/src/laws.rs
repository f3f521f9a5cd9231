//! Laws of the normalizer, stated over the specification-level machine and
//! proved once and for all: files without imports pass through unchanged,
//! a second run is a no-op on import-free output, no line is ever lost,
//! categories land in their own group, and groups keep the canonical order
//! with source order preserved inside each group.

use vstd::prelude::*;

use crate::classify::ImportType;
use crate::classify::spec_is_import;
use crate::classify::spec_is_import_start;
use crate::normalize::MachineState;
use crate::normalize::Section;
use crate::normalize::blank_line;
use crate::normalize::flush_one;
use crate::normalize::flushed;
use crate::normalize::init_state;
use crate::normalize::normalize_spec;
use crate::normalize::run;
use crate::normalize::step;
use crate::text::has_char;
use crate::text::has_substring;

verus! {

proof fn lemma_run_no_imports(lines: Seq<Seq<char>>)
    requires
        forall|i: int| 0 <= i < lines.len() ==> (#[trigger] spec_is_import(lines[i])) is None,
    ensures
        run(lines).out == lines,
        run(lines).std_b == Seq::<Seq<char>>::empty(),
        run(lines).ext_b == Seq::<Seq<char>>::empty(),
        run(lines).loc_b == Seq::<Seq<char>>::empty(),
        run(lines).section == Section::RestOfFile,
    decreases lines.len(),
{
    if lines.len() == 0 {
        assert(run(lines).out =~= lines);
    } else {
        let dl = lines.drop_last();
        assert(forall|i: int| 0 <= i < dl.len() ==> (#[trigger] spec_is_import(dl[i]))
            is None) by {
            assert(forall|i: int| 0 <= i < dl.len() ==> dl[i] == lines[i]);
        }
        lemma_run_no_imports(dl);
        assert(spec_is_import(lines.last()) is None);
        assert(run(lines).out =~= lines) by {
            assert(dl.push(lines.last()) =~= lines);
        }
    }
}

/// Non-import passthrough: a file none of whose lines is recognized as an
/// import declaration is returned unchanged.
pub proof fn lemma_no_import_passthrough(lines: Seq<Seq<char>>)
    requires
        forall|i: int| 0 <= i < lines.len() ==> (#[trigger] spec_is_import(lines[i])) is None,
    ensures
        normalize_spec(lines) == lines,
{
    lemma_run_no_imports(lines);
}

/// Idempotence: normalizing a second time changes nothing, provided the first
/// run's output no longer contains any recognized import line. (When import
/// lines remain in the output, a second run opens a fresh import region
/// around them and inserts one more blank separator after each group, so a
/// second run is not a no-op there; hence the proviso.)
pub proof fn lemma_idempotent(lines: Seq<Seq<char>>)
    requires
        forall|i: int|
            0 <= i < normalize_spec(lines).len() ==> (#[trigger] spec_is_import(
                normalize_spec(lines)[i],
            )) is None,
    ensures
        normalize_spec(normalize_spec(lines)) == normalize_spec(lines),
{
    lemma_no_import_passthrough(normalize_spec(lines));
}

/// Category correctness, classification side: among recognized import lines,
/// one mentioning ` std::` is Standard; one mentioning ` crate::` or
/// ` self::` but not ` std::` is Local; any other is External.
pub proof fn lemma_classification(line: Seq<char>)
    requires
        spec_is_import_start(line),
    ensures
        has_substring(line, " std::"@) ==> spec_is_import(line) == Some(ImportType::Std),
        !has_substring(line, " std::"@) && (has_substring(line, " crate::"@) || has_substring(
            line,
            " self::"@,
        )) ==> spec_is_import(line) == Some(ImportType::Crate),
        !has_substring(line, " std::"@) && !has_substring(line, " crate::"@) && !has_substring(
            line,
            " self::"@,
        ) ==> spec_is_import(line) == Some(ImportType::External),
{
}

/// Category correctness, bucket side: while scanning an import region, a
/// recognized import line is appended to the bucket of its own category and
/// leaves the other buckets and the output untouched.
pub proof fn lemma_category_bucket(st: MachineState, line: Seq<char>, cat: ImportType)
    requires
        st.section == Section::Imports,
        spec_is_import(line) == Some(cat),
    ensures
        step(st, line).out == st.out,
        step(st, line).std_b == if cat == ImportType::Std {
            st.std_b.push(line)
        } else {
            st.std_b
        },
        step(st, line).ext_b == if cat == ImportType::External {
            st.ext_b.push(line)
        } else {
            st.ext_b
        },
        step(st, line).loc_b == if cat == ImportType::Crate {
            st.loc_b.push(line)
        } else {
            st.loc_b
        },
{
}

/// How long a bucket is once emitted: its lines plus one blank separator when
/// it is non-empty, nothing when it is empty.
pub open spec fn emitted_len(bucket: Seq<Seq<char>>) -> int {
    if bucket.len() > 0 {
        bucket.len() as int + 1
    } else {
        0
    }
}

/// Ordering invariant: when an import region is flushed, the output first
/// keeps everything already emitted, then carries the Standard bucket, then
/// the External bucket, then the Local bucket, each in source order and each
/// non-empty one followed by exactly one blank line. In particular every
/// Standard line of the region precedes every External line, which precedes
/// every Local line.
pub proof fn lemma_flush_ordering(
    out: Seq<Seq<char>>,
    std_b: Seq<Seq<char>>,
    ext_b: Seq<Seq<char>>,
    loc_b: Seq<Seq<char>>,
)
    ensures
        ({
            let r = flushed(out, std_b, ext_b, loc_b);
            let sbase = out.len() as int;
            let ebase = sbase + emitted_len(std_b);
            let lbase = ebase + emitted_len(ext_b);
            &&& r.len() == lbase + emitted_len(loc_b)
            &&& forall|i: int| 0 <= i < out.len() ==> r[i] == out[i]
            &&& forall|i: int| 0 <= i < std_b.len() ==> r[sbase + i] == std_b[i]
            &&& std_b.len() > 0 ==> r[sbase + std_b.len()] == blank_line()
            &&& forall|j: int| 0 <= j < ext_b.len() ==> r[ebase + j] == ext_b[j]
            &&& ext_b.len() > 0 ==> r[ebase + ext_b.len()] == blank_line()
            &&& forall|k: int| 0 <= k < loc_b.len() ==> r[lbase + k] == loc_b[k]
            &&& loc_b.len() > 0 ==> r[lbase + loc_b.len()] == blank_line()
        }),
{
}

proof fn lemma_empty_count(l: Seq<char>)
    ensures
        Seq::<Seq<char>>::empty().to_multiset().count(l) == 0,
{
    broadcast use vstd::seq_lib::group_to_multiset_ensures;

}

proof fn lemma_singleton_blank_count(l: Seq<char>)
    ensures
        l == blank_line() ==> seq![blank_line()].to_multiset().count(l) == 1,
        l != blank_line() ==> seq![blank_line()].to_multiset().count(l) == 0,
{
    broadcast use vstd::seq_lib::group_to_multiset_ensures;
    broadcast use vstd::multiset::group_multiset_axioms;

    lemma_empty_count(l);
    assert(Seq::<Seq<char>>::empty().push(blank_line()) =~= seq![blank_line()]);
}

proof fn lemma_push_count(s: Seq<Seq<char>>, x: Seq<char>, l: Seq<char>)
    ensures
        x == l ==> s.push(x).to_multiset().count(l) == s.to_multiset().count(l) + 1,
        x != l ==> s.push(x).to_multiset().count(l) == s.to_multiset().count(l),
{
    broadcast use vstd::seq_lib::group_to_multiset_ensures;
    broadcast use vstd::multiset::group_multiset_axioms;

}

proof fn lemma_flush_one_counts(out: Seq<Seq<char>>, b: Seq<Seq<char>>, l: Seq<char>)
    ensures
        l != blank_line() ==> flush_one(out, b).to_multiset().count(l) == out.to_multiset().count(
            l,
        ) + b.to_multiset().count(l),
        flush_one(out, b).to_multiset().count(l) >= out.to_multiset().count(l)
            + b.to_multiset().count(l),
{
    broadcast use vstd::multiset::group_multiset_axioms;

    if b.len() > 0 {
        vstd::seq_lib::lemma_multiset_commutative(out, b);
        vstd::seq_lib::lemma_multiset_commutative(out + b, seq![blank_line()]);
        assert((out + b) + seq![blank_line()] =~= out + b + seq![blank_line()]);
        lemma_singleton_blank_count(l);
    } else {
        assert(b =~= Seq::<Seq<char>>::empty());
        lemma_empty_count(l);
    }
}

proof fn lemma_flushed_counts(
    out: Seq<Seq<char>>,
    std_b: Seq<Seq<char>>,
    ext_b: Seq<Seq<char>>,
    loc_b: Seq<Seq<char>>,
    l: Seq<char>,
)
    ensures
        ({
            let total = out.to_multiset().count(l) + std_b.to_multiset().count(l)
                + ext_b.to_multiset().count(l) + loc_b.to_multiset().count(l);
            &&& l != blank_line() ==> flushed(out, std_b, ext_b, loc_b).to_multiset().count(l)
                == total
            &&& flushed(out, std_b, ext_b, loc_b).to_multiset().count(l) >= total
        }),
{
    lemma_flush_one_counts(out, std_b, l);
    lemma_flush_one_counts(flush_one(out, std_b), ext_b, l);
    lemma_flush_one_counts(flush_one(flush_one(out, std_b), ext_b), loc_b, l);
}

/// Outside an import region the buckets are empty: they are only filled while
/// one is open and are drained in full when it closes.
pub proof fn lemma_rest_of_file_buckets_empty(lines: Seq<Seq<char>>)
    ensures
        run(lines).section == Section::RestOfFile ==> run(lines).std_b
            == Seq::<Seq<char>>::empty() && run(lines).ext_b == Seq::<Seq<char>>::empty() && run(
            lines,
        ).loc_b == Seq::<Seq<char>>::empty(),
    decreases lines.len(),
{
    if lines.len() > 0 {
        lemma_rest_of_file_buckets_empty(lines.drop_last());
    }
}

proof fn lemma_run_counts(lines: Seq<Seq<char>>, l: Seq<char>)
    ensures
        ({
            let st = run(lines);
            let total = st.out.to_multiset().count(l) + st.std_b.to_multiset().count(l)
                + st.ext_b.to_multiset().count(l) + st.loc_b.to_multiset().count(l);
            &&& l != blank_line() ==> total == lines.to_multiset().count(l)
            &&& total >= lines.to_multiset().count(l)
        }),
    decreases lines.len(),
{
    broadcast use vstd::multiset::group_multiset_axioms;

    if lines.len() == 0 {
        lemma_empty_count(l);
        assert(lines.to_multiset().count(l) == 0) by {
            broadcast use vstd::seq_lib::group_to_multiset_ensures;

            assert(lines =~= Seq::<Seq<char>>::empty());
        }
    } else {
        let dl = lines.drop_last();
        let last = lines.last();
        lemma_run_counts(dl, l);
        assert(lines.to_multiset().count(l) == dl.to_multiset().count(l) + (if last == l {
            1int
        } else {
            0int
        })) by {
            lemma_push_count(dl, last, l);
            assert(dl.push(last) =~= lines);
        }
        let st = run(dl);
        let entered = if st.section == Section::RestOfFile && spec_is_import(last) is Some {
            Section::Imports
        } else {
            st.section
        };
        match entered {
            Section::Imports => match spec_is_import(last) {
                Some(cat) => {
                    lemma_push_count(st.std_b, last, l);
                    lemma_push_count(st.ext_b, last, l);
                    lemma_push_count(st.loc_b, last, l);
                },
                None => {
                    lemma_flushed_counts(st.out, st.std_b, st.ext_b, st.loc_b, l);
                    lemma_push_count(flushed(st.out, st.std_b, st.ext_b, st.loc_b), last, l);
                    lemma_empty_count(l);
                },
            },
            Section::ImportsInABlock(_) => {
                lemma_push_count(st.std_b, last, l);
                lemma_push_count(st.ext_b, last, l);
                lemma_push_count(st.loc_b, last, l);
            },
            Section::RestOfFile => {
                lemma_push_count(st.out, last, l);
            },
        }
    }
}

/// Completeness (no line loss): for every non-blank line, the output contains
/// it exactly as often as the input does; blank lines can only gain
/// occurrences (the separators inserted after each non-empty bucket).
pub proof fn lemma_no_line_loss(lines: Seq<Seq<char>>, l: Seq<char>)
    ensures
        l != blank_line() ==> normalize_spec(lines).to_multiset().count(l)
            == lines.to_multiset().count(l),
        normalize_spec(lines).to_multiset().count(l) >= lines.to_multiset().count(l),
{
    lemma_run_counts(lines, l);
    let st = run(lines);
    if st.section == Section::RestOfFile {
        lemma_rest_of_file_buckets_empty(lines);
        lemma_empty_count(l);
    } else {
        lemma_flushed_counts(st.out, st.std_b, st.ext_b, st.loc_b, l);
    }
}

/// The classifier's verdict for one category, in a form `Seq::filter` takes.
pub open spec fn of_category(cat: ImportType) -> spec_fn(Seq<char>) -> bool {
    |l: Seq<char>| spec_is_import(l) == Some(cat)
}

proof fn lemma_run_single_region(lines: Seq<Seq<char>>)
    requires
        lines.len() > 0,
        forall|i: int| 0 <= i < lines.len() ==> (#[trigger] spec_is_import(lines[i])) is Some,
        forall|i: int|
            0 <= i < lines.len() ==> !(has_char(#[trigger] lines[i], '{') && !has_char(
                lines[i],
                '}',
            )),
    ensures
        run(lines).out == Seq::<Seq<char>>::empty(),
        run(lines).std_b == lines.filter(of_category(ImportType::Std)),
        run(lines).ext_b == lines.filter(of_category(ImportType::External)),
        run(lines).loc_b == lines.filter(of_category(ImportType::Crate)),
        run(lines).section == Section::Imports,
    decreases lines.len(),
{
    reveal(Seq::filter);
    let dl = lines.drop_last();
    let last = lines.last();
    assert(last == lines[lines.len() - 1]);
    let cat = match spec_is_import(last) {
        Some(c) => c,
        None => ImportType::Std,
    };
    if lines.len() == 1 {
        assert(dl.filter(of_category(ImportType::Std)) =~= Seq::<Seq<char>>::empty());
        assert(dl.filter(of_category(ImportType::External)) =~= Seq::<Seq<char>>::empty());
        assert(dl.filter(of_category(ImportType::Crate)) =~= Seq::<Seq<char>>::empty());
        assert(run(lines) == step(init_state(), last));
        assert(run(lines).std_b == lines.filter(of_category(ImportType::Std)));
        assert(run(lines).ext_b == lines.filter(of_category(ImportType::External)));
        assert(run(lines).loc_b == lines.filter(of_category(ImportType::Crate)));
    } else {
        assert(forall|i: int| 0 <= i < dl.len() ==> dl[i] == lines[i]);
        lemma_run_single_region(dl);
        assert(run(lines) == step(run(dl), last));
        assert(run(lines).std_b == lines.filter(of_category(ImportType::Std)));
        assert(run(lines).ext_b == lines.filter(of_category(ImportType::External)));
        assert(run(lines).loc_b == lines.filter(of_category(ImportType::Crate)));
    }
}

/// Category correctness and ordering over a whole import region: a file that
/// is one contiguous run of recognized import lines, none opening an
/// unterminated brace block, normalizes to exactly its Standard lines in
/// source order, then its External lines, then its Local lines, each
/// non-empty group followed by one blank separator line.
pub proof fn lemma_region_grouping(lines: Seq<Seq<char>>)
    requires
        forall|i: int| 0 <= i < lines.len() ==> (#[trigger] spec_is_import(lines[i])) is Some,
        forall|i: int|
            0 <= i < lines.len() ==> !(has_char(#[trigger] lines[i], '{') && !has_char(
                lines[i],
                '}',
            )),
    ensures
        normalize_spec(lines) == flushed(
            Seq::<Seq<char>>::empty(),
            lines.filter(of_category(ImportType::Std)),
            lines.filter(of_category(ImportType::External)),
            lines.filter(of_category(ImportType::Crate)),
        ),
{
    if lines.len() == 0 {
        reveal(Seq::filter);
        assert(lines.filter(of_category(ImportType::Std)) =~= Seq::<Seq<char>>::empty());
        assert(lines.filter(of_category(ImportType::External)) =~= Seq::<Seq<char>>::empty());
        assert(lines.filter(of_category(ImportType::Crate)) =~= Seq::<Seq<char>>::empty());
        assert(normalize_spec(lines) =~= Seq::<Seq<char>>::empty());
    } else {
        lemma_run_single_region(lines);
    }
}

} // verus!
