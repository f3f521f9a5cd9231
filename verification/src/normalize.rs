//! The import normalizer: a per-line state machine that copies body lines
//! through unchanged and, for each maximal contiguous import region, gathers
//! the import lines into three category buckets and emits them in canonical
//! order (Standard, External, Local), each non-empty bucket followed by one
//! blank separator line.
//!
//! An import line that opens a brace group without closing it on the same
//! line switches the machine into a block state: every following line is
//! appended verbatim to the opening line's bucket until a line containing a
//! closing brace is seen. Brace counting is a single-line presence test, not
//! a balance: a closing brace anywhere on a line ends the block.
//!
//! When the input ends while an import region (or an unterminated block
//! inside one) is still open, the buckets are flushed all the same, so no
//! line of the input is ever dropped.

use vstd::prelude::*;

use crate::classify::ImportType;
use crate::classify::classify_line;
use crate::classify::spec_is_import;
use crate::text::chars_of;
use crate::text::contains_char;
use crate::text::has_char;

verus! {

/// The parse mode of the normalizer.
#[derive(Clone, Copy, Debug, PartialEq, Eq, Structural)]
pub enum Section {
    /// Outside any import region: lines pass through unchanged.
    RestOfFile,
    /// Inside a contiguous run of import lines.
    Imports,
    /// Inside a single import statement that opened a brace group without
    /// closing it; the category is the one of the opening line.
    ImportsInABlock(ImportType),
}

/// The whole state of the normalizer: the output built so far, the three
/// category buckets of the current import region, and the parse mode.
pub ghost struct MachineState {
    pub out: Seq<Seq<char>>,
    pub std_b: Seq<Seq<char>>,
    pub ext_b: Seq<Seq<char>>,
    pub loc_b: Seq<Seq<char>>,
    pub section: Section,
}

/// The blank separator line emitted after each non-empty bucket.
pub open spec fn blank_line() -> Seq<char> {
    Seq::<char>::empty()
}

/// Appends one bucket to the output: a non-empty bucket is emitted in source
/// order followed by exactly one blank line; an empty bucket emits nothing.
pub open spec fn flush_one(out: Seq<Seq<char>>, bucket: Seq<Seq<char>>) -> Seq<Seq<char>> {
    if bucket.len() > 0 {
        out + bucket + seq![blank_line()]
    } else {
        out
    }
}

/// Appends the three buckets to the output in canonical order:
/// Standard, then External, then Local.
pub open spec fn flushed(
    out: Seq<Seq<char>>,
    std_b: Seq<Seq<char>>,
    ext_b: Seq<Seq<char>>,
    loc_b: Seq<Seq<char>>,
) -> Seq<Seq<char>> {
    flush_one(flush_one(flush_one(out, std_b), ext_b), loc_b)
}

/// The state before any line has been seen.
pub open spec fn init_state() -> MachineState {
    MachineState {
        out: Seq::<Seq<char>>::empty(),
        std_b: Seq::<Seq<char>>::empty(),
        ext_b: Seq::<Seq<char>>::empty(),
        loc_b: Seq::<Seq<char>>::empty(),
        section: Section::RestOfFile,
    }
}

/// Appends `line` to the bucket of `cat` and moves to section `sec`.
pub open spec fn bucket_push(
    st: MachineState,
    cat: ImportType,
    line: Seq<char>,
    sec: Section,
) -> MachineState {
    MachineState {
        out: st.out,
        std_b: if cat == ImportType::Std {
            st.std_b.push(line)
        } else {
            st.std_b
        },
        ext_b: if cat == ImportType::External {
            st.ext_b.push(line)
        } else {
            st.ext_b
        },
        loc_b: if cat == ImportType::Crate {
            st.loc_b.push(line)
        } else {
            st.loc_b
        },
        section: sec,
    }
}

/// One transition of the normalizer on one line.
pub open spec fn step(st: MachineState, line: Seq<char>) -> MachineState {
    let section = if st.section == Section::RestOfFile && spec_is_import(line) is Some {
        Section::Imports
    } else {
        st.section
    };
    match section {
        Section::Imports => match spec_is_import(line) {
            Some(cat) => {
                let next = if has_char(line, '{') && !has_char(line, '}') {
                    Section::ImportsInABlock(cat)
                } else {
                    Section::Imports
                };
                bucket_push(st, cat, line, next)
            },
            None => MachineState {
                out: flushed(st.out, st.std_b, st.ext_b, st.loc_b).push(line),
                std_b: Seq::<Seq<char>>::empty(),
                ext_b: Seq::<Seq<char>>::empty(),
                loc_b: Seq::<Seq<char>>::empty(),
                section: Section::RestOfFile,
            },
        },
        Section::ImportsInABlock(cat) => {
            let next = if has_char(line, '}') {
                Section::Imports
            } else {
                section
            };
            bucket_push(st, cat, line, next)
        },
        Section::RestOfFile => MachineState {
            out: st.out.push(line),
            std_b: st.std_b,
            ext_b: st.ext_b,
            loc_b: st.loc_b,
            section: st.section,
        },
    }
}

/// The state after running the machine over all of `lines` in order.
pub open spec fn run(lines: Seq<Seq<char>>) -> MachineState
    decreases lines.len(),
{
    if lines.len() == 0 {
        init_state()
    } else {
        step(run(lines.drop_last()), lines.last())
    }
}

/// The normalized form of a file, given as its sequence of lines: the machine
/// runs over every line, and any import region still open at end of input is
/// flushed, so every input line reaches the output.
pub open spec fn normalize_spec(lines: Seq<Seq<char>>) -> Seq<Seq<char>> {
    let st = run(lines);
    if st.section == Section::RestOfFile {
        st.out
    } else {
        flushed(st.out, st.std_b, st.ext_b, st.loc_b)
    }
}

/// Drains the three buckets into the output in canonical order, one blank
/// line after each non-empty bucket.
fn flush_buckets(
    output: &mut Vec<String>,
    std_b: &mut Vec<String>,
    ext_b: &mut Vec<String>,
    loc_b: &mut Vec<String>,
)
    ensures
        final(output).deep_view() == flushed(
            old(output).deep_view(),
            old(std_b).deep_view(),
            old(ext_b).deep_view(),
            old(loc_b).deep_view(),
        ),
        final(std_b).deep_view() == Seq::<Seq<char>>::empty(),
        final(ext_b).deep_view() == Seq::<Seq<char>>::empty(),
        final(loc_b).deep_view() == Seq::<Seq<char>>::empty(),
{
    let ghost out0 = output.deep_view();
    let ghost s0 = std_b.deep_view();
    let ghost e0 = ext_b.deep_view();
    let ghost l0 = loc_b.deep_view();
    if std_b.len() > 0 {
        output.append(std_b);
        output.push(String::new());
        proof {
            assert(output.deep_view() =~= flush_one(out0, s0));
        }
    } else {
        proof {
            assert(s0 =~= Seq::<Seq<char>>::empty());
        }
    }
    let ghost out1 = output.deep_view();
    if ext_b.len() > 0 {
        output.append(ext_b);
        output.push(String::new());
        proof {
            assert(output.deep_view() =~= flush_one(out1, e0));
        }
    } else {
        proof {
            assert(e0 =~= Seq::<Seq<char>>::empty());
        }
    }
    let ghost out2 = output.deep_view();
    if loc_b.len() > 0 {
        output.append(loc_b);
        output.push(String::new());
        proof {
            assert(output.deep_view() =~= flush_one(out2, l0));
        }
    } else {
        proof {
            assert(l0 =~= Seq::<Seq<char>>::empty());
        }
    }
    proof {
        assert(std_b.deep_view() =~= Seq::<Seq<char>>::empty());
        assert(ext_b.deep_view() =~= Seq::<Seq<char>>::empty());
        assert(loc_b.deep_view() =~= Seq::<Seq<char>>::empty());
    }
}

/// Rewrites one file's lines: body lines pass through unchanged; each import
/// region is replaced by its three category buckets in canonical order
/// (Standard, External, Local), one blank line after each non-empty bucket.
pub fn normalize_lines(lines: &Vec<String>) -> (out: Vec<String>)
    ensures
        out.deep_view() == normalize_spec(lines.deep_view()),
{
    let ghost all: Seq<Seq<char>> = lines.deep_view();
    let mut output: Vec<String> = Vec::new();
    let mut std_b: Vec<String> = Vec::new();
    let mut ext_b: Vec<String> = Vec::new();
    let mut loc_b: Vec<String> = Vec::new();
    let mut section = Section::RestOfFile;
    let mut idx: usize = 0;
    proof {
        assert(all.take(0) =~= Seq::<Seq<char>>::empty());
    }
    while idx < lines.len()
        invariant
            all == lines.deep_view(),
            all.len() == lines@.len(),
            idx <= lines@.len(),
            output.deep_view() == run(all.take(idx as int)).out,
            std_b.deep_view() == run(all.take(idx as int)).std_b,
            ext_b.deep_view() == run(all.take(idx as int)).ext_b,
            loc_b.deep_view() == run(all.take(idx as int)).loc_b,
            section == run(all.take(idx as int)).section,
        decreases lines@.len() - idx,
    {
        let ghost pre = run(all.take(idx as int));
        let line = &lines[idx];
        let ghost lv: Seq<char> = line@;
        proof {
            assert(lv == all[idx as int]);
        }
        let chars = chars_of(line.as_str());
        let cat_opt = classify_line(&chars);
        if section == Section::RestOfFile && cat_opt.is_some() {
            section = Section::Imports;
        }
        let ghost entered: Section = if pre.section == Section::RestOfFile && spec_is_import(lv)
            is Some {
            Section::Imports
        } else {
            pre.section
        };
        proof {
            assert(section == entered);
        }
        match section {
            Section::Imports => {
                match cat_opt {
                    Some(cat) => {
                        if contains_char(&chars, '{') && !contains_char(&chars, '}') {
                            section = Section::ImportsInABlock(cat);
                        }
                        match cat {
                            ImportType::Std => {
                                std_b.push(line.clone());
                                proof {
                                    assert(std_b.deep_view() =~= pre.std_b.push(lv));
                                }
                            },
                            ImportType::External => {
                                ext_b.push(line.clone());
                                proof {
                                    assert(ext_b.deep_view() =~= pre.ext_b.push(lv));
                                }
                            },
                            ImportType::Crate => {
                                loc_b.push(line.clone());
                                proof {
                                    assert(loc_b.deep_view() =~= pre.loc_b.push(lv));
                                }
                            },
                        }
                    },
                    None => {
                        section = Section::RestOfFile;
                        flush_buckets(&mut output, &mut std_b, &mut ext_b, &mut loc_b);
                        output.push(line.clone());
                        proof {
                            assert(output.deep_view() =~= flushed(
                                pre.out,
                                pre.std_b,
                                pre.ext_b,
                                pre.loc_b,
                            ).push(lv));
                        }
                    },
                }
            },
            Section::ImportsInABlock(cat) => {
                if contains_char(&chars, '}') {
                    section = Section::Imports;
                }
                match cat {
                    ImportType::Std => {
                        std_b.push(line.clone());
                        proof {
                            assert(std_b.deep_view() =~= pre.std_b.push(lv));
                        }
                    },
                    ImportType::External => {
                        ext_b.push(line.clone());
                        proof {
                            assert(ext_b.deep_view() =~= pre.ext_b.push(lv));
                        }
                    },
                    ImportType::Crate => {
                        loc_b.push(line.clone());
                        proof {
                            assert(loc_b.deep_view() =~= pre.loc_b.push(lv));
                        }
                    },
                }
            },
            Section::RestOfFile => {
                output.push(line.clone());
                proof {
                    assert(output.deep_view() =~= pre.out.push(lv));
                }
            },
        }
        proof {
            assert(all.take(idx + 1 as int).drop_last() =~= all.take(idx as int));
            assert(all.take(idx + 1 as int).last() == lv);
            assert(run(all.take(idx + 1 as int)) == step(pre, lv));
        }
        idx += 1;
    }
    proof {
        assert(all.take(lines@.len() as int) =~= all);
    }
    match section {
        Section::RestOfFile => {},
        _ => {
            flush_buckets(&mut output, &mut std_b, &mut ext_b, &mut loc_b);
        },
    }
    output
}

} // verus!
