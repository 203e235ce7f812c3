//! The interchange-text layout engine: a stateful formatter whose events
//! mirror a JSON writer's. Object keys each start on their own indented
//! line; array scalars are grouped sixteen to a visual line; empty arrays
//! and objects stay on one line. Each event returns the bytes to emit,
//! so the outer writer stays free of layout decisions.
use vstd::prelude::*;

verus! {

/// The bytes the layout is built from.
pub const NEWLINE: u8 = 10;

pub const SPACE: u8 = 32;

pub const COMMA: u8 = 44;

pub const COLON: u8 = 58;

pub const LEFT_BRACKET: u8 = 91;

pub const RIGHT_BRACKET: u8 = 93;

pub const LEFT_BRACE: u8 = 123;

pub const RIGHT_BRACE: u8 = 125;

/// The mathematical state of the formatter.
#[verifier::ext_equal]
pub ghost struct FormatterData {
    pub current_indent: usize,
    pub has_value: bool,
    pub indent: Seq<u8>,
    pub item_count: usize,
}

/// `s` repeated `n` times.
pub open spec fn repeat_bytes(s: Seq<u8>, n: int) -> Seq<u8>
    decreases n,
{
    if n <= 0 {
        Seq::empty()
    } else {
        repeat_bytes(s, n - 1) + s
    }
}

/// Writes the indentation unit `n` times.
pub fn indent(n: usize, unit: &[u8]) -> (out: Vec<u8>)
    ensures
        out@ == repeat_bytes(unit@, n as int),
{
    let mut out: Vec<u8> = Vec::new();
    let mut i: usize = 0;
    while i < n
        invariant
            i <= n,
            out@ == repeat_bytes(unit@, i as int),
        decreases n - i,
    {
        let mut j: usize = 0;
        while j < unit.len()
            invariant
                j <= unit@.len(),
                out@ == repeat_bytes(unit@, i as int) + unit@.subrange(0, j as int),
            decreases unit.len() - j,
        {
            out.push(unit[j]);
            proof {
                assert(out@ =~= repeat_bytes(unit@, i as int) + unit@.subrange(0, j + 1 as int));
            }
            j += 1;
        }
        proof {
            assert(unit@.subrange(0, unit@.len() as int) =~= unit@);
            assert(out@ =~= repeat_bytes(unit@, i + 1 as int));
        }
        i += 1;
    }
    proof {
        assert(repeat_bytes(unit@, 0) + Seq::<u8>::empty() =~= repeat_bytes(unit@, 0));
    }
    out
}

/// The layout engine. Indentation starts at zero and two spaces per
/// level by default; array items are counted modulo the sixteen-per-line
/// grouping.
pub struct PrettyFormatter2<'a> {
    current_indent: usize,
    has_value: bool,
    indent: &'a [u8],
    item_count: usize,
}

impl<'a> View for PrettyFormatter2<'a> {
    type V = FormatterData;

    closed spec fn view(&self) -> FormatterData {
        FormatterData {
            current_indent: self.current_indent,
            has_value: self.has_value,
            indent: self.indent@,
            item_count: self.item_count,
        }
    }
}

impl<'a> Default for PrettyFormatter2<'a> {
    fn default() -> (f: Self)
        ensures
            f@.current_indent == 0,
            !f@.has_value,
            f@.item_count == 0,
            f@.indent == seq![32u8, 32u8],
    {
        PrettyFormatter2::new()
    }
}

impl<'a> PrettyFormatter2<'a> {
    /// The item counter never leaves the sixteen-per-line cycle.
    #[verifier::type_invariant]
    spec fn grouping_inv(self) -> bool {
        self.item_count < 16
    }

    /// A formatter that indents with two spaces per level.
    pub fn new() -> (f: Self)
        ensures
            f@.current_indent == 0,
            !f@.has_value,
            f@.item_count == 0,
            f@.indent == seq![32u8, 32u8],
    {
        let f = PrettyFormatter2::with_indent(&[SPACE, SPACE]);
        proof {
            assert(f@.indent =~= seq![32u8, 32u8]);
        }
        f
    }

    /// A formatter that indents with the given byte string per level.
    pub fn with_indent(indent: &'a [u8]) -> (f: Self)
        ensures
            f@ == (FormatterData {
                current_indent: 0,
                has_value: false,
                indent: indent@,
                item_count: 0,
            }),
    {
        PrettyFormatter2 { current_indent: 0, has_value: false, indent, item_count: 0 }
    }

    /// The nesting depth the formatter is currently at.
    pub fn depth(&self) -> (d: usize)
        ensures
            d == self@.current_indent,
    {
        self.current_indent
    }

    /// Opens an array: one level deeper, the item grouping restarts.
    pub fn begin_array(&mut self) -> (out: Vec<u8>)
        requires
            old(self)@.current_indent < usize::MAX,
        ensures
            final(self)@ == (FormatterData {
                current_indent: (old(self)@.current_indent + 1) as usize,
                has_value: false,
                indent: old(self)@.indent,
                item_count: 0,
            }),
            out@ == seq![LEFT_BRACKET],
    {
        proof {
            use_type_invariant(&*self);
        }
        self.item_count = 0;
        self.current_indent = self.current_indent + 1;
        self.has_value = false;
        let mut out: Vec<u8> = Vec::new();
        out.push(LEFT_BRACKET);
        proof {
            assert(out@ =~= seq![LEFT_BRACKET]);
        }
        out
    }

    /// Closes an array: back one level; a non-empty array gets its
    /// closing bracket on a fresh indented line, an empty one stays flat.
    pub fn end_array(&mut self) -> (out: Vec<u8>)
        requires
            old(self)@.current_indent >= 1,
        ensures
            final(self)@ == (FormatterData {
                current_indent: (old(self)@.current_indent - 1) as usize,
                ..old(self)@
            }),
            out@ == (if old(self)@.has_value {
                seq![NEWLINE] + repeat_bytes(old(self)@.indent, old(self)@.current_indent - 1)
            } else {
                Seq::<u8>::empty()
            }) + seq![RIGHT_BRACKET],
    {
        proof {
            use_type_invariant(&*self);
        }
        self.current_indent = self.current_indent - 1;
        let mut out: Vec<u8> = Vec::new();
        if self.has_value {
            out.push(NEWLINE);
            let mut pad = indent(self.current_indent, self.indent);
            out.append(&mut pad);
        }
        out.push(RIGHT_BRACKET);
        proof {
            if old(self)@.has_value {
                assert(out@ =~= seq![NEWLINE] + repeat_bytes(
                    old(self)@.indent,
                    old(self)@.current_indent - 1,
                ) + seq![RIGHT_BRACKET]);
            } else {
                assert(out@ =~= Seq::<u8>::empty() + seq![RIGHT_BRACKET]);
            }
        }
        out
    }

    /// Starts one array value: the first of each sixteen-item group goes
    /// on a fresh indented line, the rest follow on the same line.
    pub fn begin_array_value(&mut self, first: bool) -> (out: Vec<u8>)
        ensures
            final(self)@ == (FormatterData {
                item_count: ((old(self)@.item_count + 1) as usize % 16) as usize,
                ..old(self)@
            }),
            out@ == (if old(self)@.item_count == 0 {
                (if first {
                    seq![NEWLINE]
                } else {
                    seq![COMMA, NEWLINE]
                }) + repeat_bytes(old(self)@.indent, old(self)@.current_indent as int)
            } else {
                seq![COMMA, SPACE]
            }),
    {
        let mut out: Vec<u8> = Vec::new();
        if self.item_count == 0 {
            if first {
                out.push(NEWLINE);
            } else {
                out.push(COMMA);
                out.push(NEWLINE);
            }
            let mut pad = indent(self.current_indent, self.indent);
            out.append(&mut pad);
            proof {
                if first {
                    assert(out@ =~= seq![NEWLINE] + repeat_bytes(
                        old(self)@.indent,
                        old(self)@.current_indent as int,
                    ));
                } else {
                    assert(out@ =~= seq![COMMA, NEWLINE] + repeat_bytes(
                        old(self)@.indent,
                        old(self)@.current_indent as int,
                    ));
                }
            }
        } else {
            out.push(COMMA);
            out.push(SPACE);
            proof {
                assert(out@ =~= seq![COMMA, SPACE]);
            }
        }
        proof {
            use_type_invariant(&*self);
        }
        self.item_count = (self.item_count + 1) % 16;
        out
    }

    /// Ends one array value.
    pub fn end_array_value(&mut self) -> (out: Vec<u8>)
        ensures
            final(self)@ == (FormatterData { has_value: true, ..old(self)@ }),
            out@ == Seq::<u8>::empty(),
    {
        proof {
            use_type_invariant(&*self);
        }
        self.has_value = true;
        let out: Vec<u8> = Vec::new();
        out
    }

    /// Opens an object: one level deeper (the item grouping is left as
    /// is; it only matters inside arrays).
    pub fn begin_object(&mut self) -> (out: Vec<u8>)
        requires
            old(self)@.current_indent < usize::MAX,
        ensures
            final(self)@ == (FormatterData {
                current_indent: (old(self)@.current_indent + 1) as usize,
                has_value: false,
                ..old(self)@
            }),
            out@ == seq![LEFT_BRACE],
    {
        proof {
            use_type_invariant(&*self);
        }
        self.current_indent = self.current_indent + 1;
        self.has_value = false;
        let mut out: Vec<u8> = Vec::new();
        out.push(LEFT_BRACE);
        proof {
            assert(out@ =~= seq![LEFT_BRACE]);
        }
        out
    }

    /// Closes an object, mirroring `end_array`.
    pub fn end_object(&mut self) -> (out: Vec<u8>)
        requires
            old(self)@.current_indent >= 1,
        ensures
            final(self)@ == (FormatterData {
                current_indent: (old(self)@.current_indent - 1) as usize,
                ..old(self)@
            }),
            out@ == (if old(self)@.has_value {
                seq![NEWLINE] + repeat_bytes(old(self)@.indent, old(self)@.current_indent - 1)
            } else {
                Seq::<u8>::empty()
            }) + seq![RIGHT_BRACE],
    {
        proof {
            use_type_invariant(&*self);
        }
        self.current_indent = self.current_indent - 1;
        let mut out: Vec<u8> = Vec::new();
        if self.has_value {
            out.push(NEWLINE);
            let mut pad = indent(self.current_indent, self.indent);
            out.append(&mut pad);
        }
        out.push(RIGHT_BRACE);
        proof {
            if old(self)@.has_value {
                assert(out@ =~= seq![NEWLINE] + repeat_bytes(
                    old(self)@.indent,
                    old(self)@.current_indent - 1,
                ) + seq![RIGHT_BRACE]);
            } else {
                assert(out@ =~= Seq::<u8>::empty() + seq![RIGHT_BRACE]);
            }
        }
        out
    }

    /// Starts one object key: every key begins on its own indented line.
    pub fn begin_object_key(&mut self, first: bool) -> (out: Vec<u8>)
        ensures
            final(self)@ == old(self)@,
            out@ == (if first {
                seq![NEWLINE]
            } else {
                seq![COMMA, NEWLINE]
            }) + repeat_bytes(old(self)@.indent, old(self)@.current_indent as int),
    {
        let mut out: Vec<u8> = Vec::new();
        if first {
            out.push(NEWLINE);
        } else {
            out.push(COMMA);
            out.push(NEWLINE);
        }
        let mut pad = indent(self.current_indent, self.indent);
        out.append(&mut pad);
        proof {
            if first {
                assert(out@ =~= seq![NEWLINE] + repeat_bytes(
                    old(self)@.indent,
                    old(self)@.current_indent as int,
                ));
            } else {
                assert(out@ =~= seq![COMMA, NEWLINE] + repeat_bytes(
                    old(self)@.indent,
                    old(self)@.current_indent as int,
                ));
            }
        }
        out
    }

    /// Separates a key from its value.
    pub fn begin_object_value(&mut self) -> (out: Vec<u8>)
        ensures
            final(self)@ == old(self)@,
            out@ == seq![COLON, SPACE],
    {
        let mut out: Vec<u8> = Vec::new();
        out.push(COLON);
        out.push(SPACE);
        proof {
            assert(out@ =~= seq![COLON, SPACE]);
        }
        out
    }

    /// Ends one object value.
    pub fn end_object_value(&mut self) -> (out: Vec<u8>)
        ensures
            final(self)@ == (FormatterData { has_value: true, ..old(self)@ }),
            out@ == Seq::<u8>::empty(),
    {
        proof {
            use_type_invariant(&*self);
        }
        self.has_value = true;
        let out: Vec<u8> = Vec::new();
        out
    }
}

} // verus!
