use vstd::prelude::*;
use vstd::string::*;
use vstd::utf8::*;

use crate::lua_value::lua_value::{bytes_equal, LuaValue};
use crate::lua_value::LocVar;
use crate::lua_vm::lua_limits::{MAXVARS, MAX_SRC_LEN};

verus! {

/// Kinds of variables, in the order the parser ranks them.
#[derive(Debug, Clone, Copy, PartialEq, Eq, Structural)]
pub enum VarKind {
    /// Regular local variable.
    VDKREG,
    /// Local constant (`<const>`), read-only.
    RDKCONST,
    /// Vararg parameter.
    RDKVAVAR,
    /// To-be-closed variable (`<close>`).
    RDKTOCLOSE,
    /// Local compile-time constant.
    RDKCTC,
    /// Regular global variable.
    GDKREG,
    /// Global constant.
    GDKCONST,
}

impl VarKind {
    /// Variables that live in registers: regular locals, local constants, the vararg
    /// parameter and to-be-closed variables.
    pub open spec fn spec_in_reg(self) -> bool {
        self is VDKREG || self is RDKCONST || self is RDKVAVAR || self is RDKTOCLOSE
    }

    /// Global variables (regular or constant).
    pub open spec fn spec_global(self) -> bool {
        self is GDKREG || self is GDKCONST
    }

    /// Read-only variables: every local kind from `RDKCONST` on (constants, the vararg
    /// parameter, to-be-closed variables and compile-time constants) and global constants.
    pub open spec fn spec_readonly(self) -> bool {
        self is RDKCONST || self is RDKVAVAR || self is RDKTOCLOSE || self is RDKCTC
            || self is GDKCONST
    }

    pub fn is_in_reg(self) -> (r: bool)
        ensures
            r == self.spec_in_reg(),
    {
        match self {
            VarKind::VDKREG | VarKind::RDKCONST | VarKind::RDKVAVAR | VarKind::RDKTOCLOSE => true,
            _ => false,
        }
    }

    pub fn is_global(self) -> (r: bool)
        ensures
            r == self.spec_global(),
    {
        match self {
            VarKind::GDKREG | VarKind::GDKCONST => true,
            _ => false,
        }
    }

    pub fn is_readonly(self) -> (r: bool)
        ensures
            r == self.spec_readonly(),
    {
        match self {
            VarKind::RDKCONST | VarKind::RDKVAVAR | VarKind::RDKTOCLOSE | VarKind::RDKCTC
            | VarKind::GDKCONST => true,
            _ => false,
        }
    }
}

/// No variable is both global and held in a register.
pub proof fn lemma_global_not_in_reg(k: VarKind)
    ensures
        !(k.spec_global() && k.spec_in_reg()),
{
}

/// Upvalue descriptor.
#[derive(Clone)]
pub struct Upvaldesc {
    /// Name of the upvalue.
    pub name: String,
    /// The upvalue is a register of the enclosing function (else one of its upvalues).
    pub in_stack: bool,
    /// Index of the register or of the enclosing function's upvalue.
    pub idx: u8,
    /// Kind of the variable captured.
    pub kind: VarKind,
}

/// Index of a block in the compiler's pool.
#[derive(Clone, Copy, PartialEq, Eq, Structural, Debug, Hash)]
pub struct BlockCntId(pub usize);

/// Index of an assignment target in the compiler's pool.
#[derive(Clone, Copy, PartialEq, Eq, Structural, Debug, Hash)]
pub struct LhsAssignId(pub usize);

/// Bookkeeping for one syntactic block.
#[derive(Clone, Copy)]
pub struct BlockCnt {
    /// The enclosing block.
    pub previous: Option<BlockCntId>,
    /// Index of the first label of the block.
    pub first_label: usize,
    /// Index of the first pending goto of the block.
    pub first_goto: usize,
    /// Number of active variables outside the block.
    pub nactvar: u16,
    /// Some variable of the block is captured as an upvalue.
    pub upval: bool,
    /// 0: not a loop; 1: a loop; 2: a loop with pending breaks.
    pub is_loop: u8,
    /// The block is still in scope.
    pub in_scope: bool,
}

impl Default for BlockCnt {
    fn default() -> (r: Self)
        ensures
            r.previous is None,
            r.first_label == 0,
            r.first_goto == 0,
            r.nactvar == 0,
            !r.upval,
            r.is_loop == 0,
            !r.in_scope,
    {
        BlockCnt {
            previous: None,
            first_label: 0,
            first_goto: 0,
            nactvar: 0,
            upval: false,
            is_loop: 0,
            in_scope: false,
        }
    }
}

/// A label or a pending goto.
#[derive(Clone)]
pub struct LabelDesc {
    pub name: String,
    /// Position of the label or of the jump.
    pub pc: usize,
    /// Line where it appeared.
    pub line: usize,
    /// Number of active variables at that point.
    pub nactvar: u16,
    /// Stack level at that point.
    pub stklevel: u8,
    /// The jump must close upvalues.
    pub close: bool,
}

/// State shared by the nested function states of one compilation: a pool of block records,
/// addressed by index. Taken slots stay in place (empty) so that later indices stay valid.
pub struct CompilerState {
    pub block_cnt_pool: Vec<Option<BlockCnt>>,
}

impl CompilerState {
    pub fn new() -> (r: Self)
        ensures
            r.block_cnt_pool@ == Seq::<Option<BlockCnt>>::empty(),
    {
        CompilerState { block_cnt_pool: Vec::new() }
    }

    /// Store a block; its id is the next free index.
    pub fn alloc_blockcnt(&mut self, block: BlockCnt) -> (r: BlockCntId)
        ensures
            r.0 == old(self).block_cnt_pool@.len(),
            final(self).block_cnt_pool@ == old(self).block_cnt_pool@.push(Some(block)),
    {
        let id = BlockCntId(self.block_cnt_pool.len());
        self.block_cnt_pool.push(Some(block));
        id
    }

    /// Mutable access to the block stored under `id`, if it is there and not taken.
    pub fn get_blockcnt_mut(&mut self, id: BlockCntId) -> (r: Option<&mut BlockCnt>)
        ensures
            r is Some == (id.0 < old(self).block_cnt_pool@.len() && old(self).block_cnt_pool@[id.0 as int] is Some),
            r matches Some(b) ==> {
                &&& *b == old(self).block_cnt_pool@[id.0 as int]->0
                &&& final(self).block_cnt_pool@ == old(self).block_cnt_pool@.update(
                    id.0 as int,
                    Some(*final(b)),
                )
            },
            r is None ==> final(self).block_cnt_pool@ == old(self).block_cnt_pool@,
    {
        if id.0 < self.block_cnt_pool.len() {
            match &mut self.block_cnt_pool[id.0] {
                Some(b) => Some(b),
                None => None,
            }
        } else {
            None
        }
    }

    /// Take the block stored under `id` out of the pool, leaving its slot empty.
    pub fn take_blockcnt(&mut self, id: BlockCntId) -> (r: Option<BlockCnt>)
        ensures
            id.0 < old(self).block_cnt_pool@.len() ==> {
                &&& r == old(self).block_cnt_pool@[id.0 as int]
                &&& final(self).block_cnt_pool@ == old(self).block_cnt_pool@.update(
                    id.0 as int,
                    None,
                )
            },
            id.0 >= old(self).block_cnt_pool@.len() ==> {
                &&& r is None
                &&& final(self).block_cnt_pool@ == old(self).block_cnt_pool@
            },
    {
        if id.0 < self.block_cnt_pool.len() {
            let r = self.block_cnt_pool[id.0];
            self.block_cnt_pool.set(id.0, None);
            r
        } else {
            None
        }
    }
}

impl Default for CompilerState {
    fn default() -> (r: Self)
        ensures
            r.block_cnt_pool@ == Seq::<Option<BlockCnt>>::empty(),
    {
        Self::new()
    }
}

/// A block stored in the pool can be read back under its id until it is taken, and taking
/// it again gives nothing.
pub proof fn lemma_pool_alloc_take(pool: Seq<Option<BlockCnt>>, block: BlockCnt)
    ensures
        ({
            let after = pool.push(Some(block));
            let id = pool.len() as int;
            &&& after[id] == Some(block)
            &&& after.update(id, None)[id] is None
            &&& forall|k: int| 0 <= k < pool.len() ==> after.update(id, None)[k] == pool[k]
        }),
{
}

} // verus!

verus! {

/// Room for the text inside `[string "..."]`: the longest name less the decoration.
pub open spec fn max_literal_content() -> int {
    MAX_SRC_LEN - 14
}

/// Position of the first newline, or the length when there is none.
pub open spec fn first_newline(src: Seq<u8>) -> int
    decreases src.len(),
{
    if src.len() == 0 {
        0
    } else if src[0] == 10 {
        0
    } else {
        1 + first_newline(src.drop_first())
    }
}

/// Length of the first line: up to the first newline, without a carriage return that
/// precedes it.
pub open spec fn first_line_len(src: Seq<u8>) -> int {
    let k = first_newline(src);
    if 0 < k < src.len() && src[k - 1] == 13 {
        k - 1
    } else {
        k
    }
}

/// The source holds more than one line: something follows its first newline.
pub open spec fn has_more_lines(src: Seq<u8>) -> bool {
    first_newline(src) + 1 < src.len()
}

/// The display name of a chunk, as bytes: `=name` shows `name` (truncated), `@file` shows
/// the file (keeping its end, after `...`, when too long), and anything else is source text
/// shown as `[string "first line"]`, with `...` when truncated or when more lines follow.
pub open spec fn format_source_bytes(src: Seq<u8>) -> Seq<u8> {
    let max = MAX_SRC_LEN as int;
    if src.len() > 0 && src[0] == 61 {
        let name = src.drop_first();
        if name.len() <= max {
            name
        } else {
            name.take(max)
        }
    } else if src.len() > 0 && src[0] == 64 {
        let name = src.drop_first();
        if name.len() <= max {
            name
        } else {
            seq![46u8, 46u8, 46u8] + name.skip(name.len() - (max - 3))
        }
    } else {
        let fl = src.take(first_line_len(src));
        let open = seq![91u8, 115u8, 116u8, 114u8, 105u8, 110u8, 103u8, 32u8, 34u8];
        if fl.len() <= max_literal_content() && !has_more_lines(src) {
            open + fl + seq![34u8, 93u8]
        } else {
            let t = if fl.len() > max_literal_content() {
                fl.take(max_literal_content())
            } else {
                fl
            };
            open + t + seq![46u8, 46u8, 46u8, 34u8, 93u8]
        }
    }
}

/// The places where the display name cuts the source fall on character boundaries (cutting
/// elsewhere is refused by the string slicing).
pub open spec fn format_source_cuts_ok(src: Seq<u8>) -> bool {
    let max = MAX_SRC_LEN as int;
    if src.len() > 0 && src[0] == 61 {
        src.len() - 1 > max ==> is_char_boundary(src, max + 1)
    } else if src.len() > 0 && src[0] == 64 {
        src.len() - 1 > max ==> is_char_boundary(src, src.len() - (max - 3))
    } else {
        first_line_len(src) > max_literal_content() ==> is_char_boundary(src, max_literal_content())
    }
}

/// UTF-8 encoding distributes over concatenation.
proof fn lemma_encode_utf8_concat(a: Seq<char>, b: Seq<char>)
    ensures
        encode_utf8(a + b) == encode_utf8(a) + encode_utf8(b),
    decreases a.len(),
{
    if a.len() == 0 {
        assert(a + b =~= b);
        assert(encode_utf8(a) =~= Seq::<u8>::empty());
        assert(encode_utf8(a) + encode_utf8(b) =~= encode_utf8(b));
    } else {
        lemma_encode_utf8_concat(a.drop_first(), b);
        assert((a + b).drop_first() =~= a.drop_first() + b);
        assert((a + b)[0] == a[0]);
        assert(encode_utf8(a + b) =~= encode_scalar(a[0] as u32) + encode_utf8(a.drop_first() + b));
    }
}

/// A string made of three pieces, as bytes.
proof fn lemma_encode_three(a: Seq<char>, b: Seq<char>, c: Seq<char>)
    ensures
        encode_utf8(a + b + c) == encode_utf8(a) + encode_utf8(b) + encode_utf8(c),
{
    lemma_encode_utf8_concat(a + b, c);
    lemma_encode_utf8_concat(a, b);
}

/// In valid UTF-8, the position right after a leading ASCII byte is a character boundary.
proof fn lemma_boundary_after_ascii(bytes: Seq<u8>)
    requires
        valid_utf8(bytes),
        bytes.len() > 0,
        bytes[0] < 128,
    ensures
        is_char_boundary(bytes, 1),
{
    reveal_with_fuel(is_char_boundary, 2);
    assert(length_of_first_scalar(bytes) == 1);
}

/// A byte position of valid UTF-8 that holds an ASCII byte, or the end, is a character
/// boundary.
proof fn lemma_boundary_at_ascii(bytes: Seq<u8>, i: int)
    requires
        valid_utf8(bytes),
        0 <= i <= bytes.len(),
        i < bytes.len() ==> bytes[i] < 128,
    ensures
        is_char_boundary(bytes, i),
{
    if i == bytes.len() {
        is_char_boundary_start_end_of_seq(bytes);
    } else {
        is_char_boundary_iff_not_is_continuation_byte(bytes, i);
    }
}

/// Boundaries of a suffix: position `k` of `bytes.skip(d)` is a boundary when position
/// `d + k` of `bytes` is, for positions inside the suffix.
proof fn lemma_boundary_shift(bytes: Seq<u8>, d: int, k: int)
    requires
        valid_utf8(bytes),
        is_char_boundary(bytes, d),
        0 <= k < bytes.len() - d,
        is_char_boundary(bytes, d + k),
    ensures
        valid_utf8(bytes.skip(d)),
        is_char_boundary(bytes.skip(d), k),
{
    valid_utf8_split(bytes, d);
    assert(bytes.skip(d) =~= bytes.subrange(d, bytes.len() as int));
    is_char_boundary_iff_not_is_continuation_byte(bytes, d + k);
    is_char_boundary_iff_not_is_continuation_byte(bytes.skip(d), k);
}

/// Boundaries of a prefix: position `k` of `bytes.take(m)` is a boundary when position `k`
/// of `bytes` is, for positions inside the prefix.
proof fn lemma_boundary_prefix(bytes: Seq<u8>, m: int, k: int)
    requires
        valid_utf8(bytes),
        is_char_boundary(bytes, m),
        0 <= k < m <= bytes.len(),
        is_char_boundary(bytes, k),
    ensures
        valid_utf8(bytes.take(m)),
        is_char_boundary(bytes.take(m), k),
{
    valid_utf8_split(bytes, m);
    assert(bytes.take(m) =~= bytes.subrange(0, m));
    is_char_boundary_iff_not_is_continuation_byte(bytes, k);
    is_char_boundary_iff_not_is_continuation_byte(bytes.take(m), k);
}

/// Position of the first newline in `bytes`, or its length.
fn find_newline(bytes: &[u8]) -> (r: usize)
    ensures
        r == first_newline(bytes@),
        r <= bytes@.len(),
        r < bytes@.len() ==> bytes@[r as int] == 10,
{
    let mut i: usize = 0;
    assert(bytes@.skip(0) =~= bytes@);
    while i < bytes.len()
        invariant
            i <= bytes@.len(),
            first_newline(bytes@) == i + first_newline(bytes@.skip(i as int)),
        decreases bytes@.len() - i,
    {
        if bytes[i] == 10 {
            assert(first_newline(bytes@.skip(i as int)) == 0);
            return i;
        }
        assert(bytes@.skip(i as int).drop_first() =~= bytes@.skip(i + 1));
        i = i + 1;
    }
    assert(bytes@.skip(i as int).len() == 0);
    i
}

/// The display name of a chunk for messages: `=name` shows `name` (at most `MAX_SRC_LEN`
/// bytes), `@file` shows the file (keeping its last bytes after `...` when too long), and
/// source text is shown as `[string "first line"]`, ending in `...` when cut or when more
/// lines follow.
pub fn format_source(source: &str) -> (r: String)
    requires
        format_source_cuts_ok(source.spec_bytes()),
    ensures
        encode_utf8(r@) == format_source_bytes(source.spec_bytes()),
{
    let bytes = source.as_bytes();
    let n = bytes.len();
    let ghost src = source.spec_bytes();
    proof {
        encode_utf8_valid_utf8(source@);
    }
    let max = MAX_SRC_LEN;
    if n > 0 && (bytes[0] == 61 || bytes[0] == 64) {
        proof {
            lemma_boundary_after_ascii(src);
            valid_utf8_split(src, 1);
        }
        let (_, name) = source.split_at(1);
        let ghost nb = name.spec_bytes();
        assert(nb =~= src.drop_first());
        if name.len() <= max {
            return name.to_owned();
        }
        proof {
            valid_utf8_split(src, 1);
            assert(src.skip(1) =~= src.drop_first());
        }
        if bytes[0] == 61 {
            proof {
                lemma_boundary_shift(src, 1, max as int);
            }
            let (head, _) = name.split_at(max);
            assert(head.spec_bytes() =~= nb.take(max as int));
            head.to_owned()
        } else {
            let cut = name.len() - (max - 3);
            proof {
                lemma_boundary_shift(src, 1, cut as int);
            }
            let (_, tail) = name.split_at(cut);
            assert(tail.spec_bytes() =~= nb.skip(cut as int));
            let dots = "...";
            proof {
                reveal_strlit("...");
            }
            let mut out = dots.to_owned();
            out.append(tail);
            proof {
                lemma_encode_utf8_concat(dots@, tail@);
                assert(is_ascii_chars(dots@));
                is_ascii_chars_encode_utf8(dots@);
                assert(encode_utf8(dots@) =~= seq![46u8, 46u8, 46u8]);
            }
            out
        }
    } else {
        let k = find_newline(bytes);
        let line_end: usize = if k > 0 && k < n && bytes[k - 1] == 13 {
            k - 1
        } else {
            k
        };
        assert(line_end == first_line_len(src));
        proof {
            lemma_boundary_at_ascii(src, line_end as int);
            valid_utf8_split(src, line_end as int);
        }
        let (line, _) = source.split_at(line_end);
        let ghost lb = line.spec_bytes();
        assert(lb =~= src.take(line_end as int));
        let more = k < n && n - k > 1;
        let content = max - 14;
        let open = "[string \"";
        proof {
            reveal_strlit("[string \"");
            assert(is_ascii_chars(open@));
                is_ascii_chars_encode_utf8(open@);
                assert(encode_utf8(open@) =~= seq![91u8, 115u8, 116u8, 114u8, 105u8, 110u8, 103u8, 32u8, 34u8]);
        }
        let mut out = open.to_owned();
        if line_end <= content && !more {
            out.append(line);
            let close = "\"]";
            proof {
                reveal_strlit("\"]");
                assert(is_ascii_chars(close@));
                is_ascii_chars_encode_utf8(close@);
                assert(encode_utf8(close@) =~= seq![34u8, 93u8]);
            }
            out.append(close);
            proof {
                lemma_encode_three(open@, line@, close@);
            }
            out
        } else {
            let piece: &str = if line_end > content {
                proof {
                    lemma_boundary_prefix(src, line_end as int, content as int);
                }
                let (head, _) = line.split_at(content);
                assert(head.spec_bytes() =~= lb.take(content as int));
                head
            } else {
                line
            };
            out.append(piece);
            let close = "...\"]";
            proof {
                reveal_strlit("...\"]");
                assert(is_ascii_chars(close@));
                is_ascii_chars_encode_utf8(close@);
                assert(encode_utf8(close@) =~= seq![46u8, 46u8, 46u8, 34u8, 93u8]);
            }
            out.append(close);
            proof {
                lemma_encode_three(open@, piece@, close@);
            }
            out
        }
    }
}

} // verus!

verus! {

/// Descriptor of a local or global variable declared in a function.
pub struct VarDesc {
    pub name: String,
    pub kind: VarKind,
    /// Register holding the variable (-1 for globals and compile-time constants).
    pub ridx: i16,
    /// Index of the variable in the function's variable list.
    pub vidx: u16,
    /// Index of the variable's debug record in the function's locals.
    pub pidx: usize,
    /// Value of a compile-time constant.
    pub const_value: Option<LuaValue>,
}

/// The register level of the first `n` variables: one past the register of the last of
/// them that lives in a register, or 0 when none does.
pub open spec fn reg_level(vars: Seq<VarDesc>, n: int) -> u8
    decreases n,
{
    if n <= 0 {
        0
    } else if n - 1 < vars.len() && vars[n - 1].kind.spec_in_reg() {
        (vars[n - 1].ridx + 1) as u8
    } else {
        reg_level(vars, n - 1)
    }
}

/// The register level of a function's first `nvar` variables (`actvar` is its variable
/// list): one past the register of the last of them held in a register, 0 when none is.
pub fn reglevel(actvar: &[VarDesc], nvar: u16) -> (r: u8)
    requires
        forall|k: int| 0 <= k < actvar@.len() ==> actvar@[k].ridx < i16::MAX,
    ensures
        r == reg_level(actvar@, nvar as int),
{
    let mut n: i32 = nvar as i32 - 1;
    while n >= 0
        invariant
            -1 <= n < nvar,
            forall|k: int| 0 <= k < actvar@.len() ==> actvar@[k].ridx < i16::MAX,
            reg_level(actvar@, nvar as int) == reg_level(actvar@, n + 1),
        decreases n + 1,
    {
        let k = n as usize;
        if k < actvar.len() {
            let vd = &actvar[k];
            if vd.kind.is_in_reg() {
                return (vd.ridx + 1) as u8;
            }
        }
        n = n - 1;
    }
    0
}

/// Position of the first of the function's first `nups` upvalues named `name`, or -1.
pub open spec fn upvalue_position(ups: Seq<Upvaldesc>, nups: int, name: Seq<char>) -> int
    decreases nups,
{
    if nups <= 0 {
        -1
    } else if upvalue_position(ups, nups - 1, name) >= 0 {
        upvalue_position(ups, nups - 1, name)
    } else if ups[nups - 1].name@ == name {
        nups - 1
    } else {
        -1
    }
}

/// Once an upvalue named `name` is found at `i`, looking further does not change the answer.
proof fn lemma_upvalue_position_found(ups: Seq<Upvaldesc>, i: int, m: int, name: Seq<char>)
    requires
        0 <= i < m,
        i < ups.len(),
        upvalue_position(ups, i, name) == -1,
        ups[i].name@ == name,
    ensures
        upvalue_position(ups, m, name) == i,
    decreases m - i,
{
    if m > i + 1 {
        lemma_upvalue_position_found(ups, i, m - 1, name);
    }
}

/// Search the function's first `nups` upvalues for one named `name`: its index, or -1.
pub fn searchupvalue(upvalues: &[Upvaldesc], nups: u8, name: &str) -> (r: i32)
    requires
        nups <= upvalues@.len(),
    ensures
        r == upvalue_position(upvalues@, nups as int, name@),
{
    let mut i: usize = 0;
    while i < nups as usize
        invariant
            nups <= upvalues@.len(),
            i <= nups,
            upvalue_position(upvalues@, i as int, name@) == -1,
        decreases nups - i,
    {
        if bytes_equal(upvalues[i].name.as_str().as_bytes(), name.as_bytes()) {
            proof {
                vstd::utf8::encode_utf8_decode_utf8(upvalues@[i as int].name@);
                vstd::utf8::encode_utf8_decode_utf8(name@);
                lemma_upvalue_position_found(upvalues@, i as int, nups as int, name@);
            }
            return i as i32;
        }
        proof {
            vstd::utf8::encode_utf8_decode_utf8(upvalues@[i as int].name@);
            vstd::utf8::encode_utf8_decode_utf8(name@);
        }
        i = i + 1;
    }
    -1
}

/// Declare a new variable at the end of the function's variable list and return its index:
/// globals and compile-time constants take no register (-1), others the first free one.
pub fn new_localvar(actvar: &mut Vec<VarDesc>, freereg: u8, name: String, kind: VarKind) -> (r: u16)
    ensures
        r == old(actvar)@.len() as u16,
        final(actvar)@ == old(actvar)@.push(
            VarDesc {
                name,
                kind,
                ridx: if kind.spec_global() || kind == VarKind::RDKCTC {
                    -1i16
                } else {
                    freereg as i16
                },
                vidx: r,
                pidx: 0,
                const_value: None,
            },
        ),
{
    let vidx = actvar.len() as u16;
    let ridx: i16 = if kind.is_global() || kind == VarKind::RDKCTC {
        -1
    } else {
        freereg as i16
    };
    actvar.push(VarDesc { name, kind, ridx, vidx, pidx: 0, const_value: None });
    vidx
}

/// The variables, debug records, active count and success after activating `n` declared
/// variables from position `nact` on, the register level standing at `reg`: each variable that
/// exists takes register `reg` and a new debug record starting at `startpc`; once the register
/// level would pass `MAXVARS` the variable keeps its register but activation stops with failure.
pub open spec fn activate_vars(
    vars: Seq<VarDesc>,
    locals: Seq<LocVar>,
    nact: int,
    n: int,
    reg: int,
    startpc: u32,
) -> (Seq<VarDesc>, Seq<LocVar>, int, bool)
    decreases n,
{
    if n <= 0 {
        (vars, locals, nact, true)
    } else if 0 <= nact < vars.len() {
        let v = vars[nact];
        if reg + 1 > MAXVARS {
            (vars.update(nact, VarDesc { ridx: reg as i16, ..v }), locals, nact, false)
        } else {
            activate_vars(
                vars.update(nact, VarDesc { ridx: reg as i16, pidx: locals.len() as usize, ..v }),
                locals.push(LocVar { name: v.name, startpc, endpc: 0 }),
                nact + 1,
                n - 1,
                reg + 1,
                startpc,
            )
        }
    } else {
        activate_vars(vars, locals, nact + 1, n - 1, reg, startpc)
    }
}

/// Activate the next `nvars` declared variables (`actvar` is the variable list, `locals` the
/// debug records, `nactvar` the active count): registers are handed out from the current
/// register level on, each variable gets a debug record starting at `startpc`, and an error
/// comes back once more than `MAXVARS` registers would be taken.
pub fn adjust_local_vars(
    actvar: &mut Vec<VarDesc>,
    locals: &mut Vec<LocVar>,
    nactvar: &mut u16,
    nvars: u16,
    startpc: u32,
) -> (r: Result<(), ()>)
    requires
        forall|k: int| 0 <= k < old(actvar)@.len() ==> old(actvar)@[k].ridx < i16::MAX,
        *old(nactvar) + nvars <= u16::MAX,
        reg_level(old(actvar)@, *old(nactvar) as int) < 255 || nvars == 0 || *old(nactvar)
            >= old(actvar)@.len(),
    ensures
        ({
            let res = activate_vars(
                old(actvar)@,
                old(locals)@,
                *old(nactvar) as int,
                nvars as int,
                reg_level(old(actvar)@, *old(nactvar) as int) as int,
                startpc,
            );
            &&& final(actvar)@ == res.0
            &&& final(locals)@ == res.1
            &&& *final(nactvar) == res.2
            &&& (r is Ok <==> res.3)
        }),
{
    let mut level: u8 = reglevel(actvar.as_slice(), *nactvar);
    let ghost reg0 = level as int;
    let ghost len0 = actvar@.len();
    let mut i: u16 = 0;
    while i < nvars
        invariant
            i <= nvars,
            *nactvar == *old(nactvar) + i,
            *old(nactvar) + nvars <= u16::MAX,
            reg0 == reg_level(old(actvar)@, *old(nactvar) as int),
            actvar@.len() == len0,
            level < 255 || i == nvars || *nactvar >= len0,
            activate_vars(old(actvar)@, old(locals)@, *old(nactvar) as int, nvars as int, reg0, startpc)
                == activate_vars(actvar@, locals@, *nactvar as int, (nvars - i) as int, level as int, startpc),
        decreases nvars - i,
    {
        let vidx = *nactvar as usize;
        if vidx < actvar.len() {
            let ridx = level as i16;
            let name = actvar[vidx].name.clone();
            if level as usize + 1 > MAXVARS {
                let v = VarDesc {
                    name,
                    kind: actvar[vidx].kind,
                    ridx,
                    vidx: actvar[vidx].vidx,
                    pidx: actvar[vidx].pidx,
                    const_value: actvar[vidx].const_value,
                };
                actvar.set(vidx, v);
                return Err(());
            }
            level = level + 1;
            let pidx = locals.len();
            locals.push(LocVar { name: name.clone(), startpc, endpc: 0 });
            let v = VarDesc {
                name,
                kind: actvar[vidx].kind,
                ridx,
                vidx: actvar[vidx].vidx,
                pidx,
                const_value: actvar[vidx].const_value,
            };
            actvar.set(vidx, v);
        }
        *nactvar = *nactvar + 1;
        i = i + 1;
    }
    Ok(())
}

/// The debug records after the variables `to..from` (of `vars`) leave scope at `endpc`.
pub open spec fn close_locals(locals: Seq<LocVar>, vars: Seq<VarDesc>, to: int, from: int, endpc: u32) -> Seq<LocVar>
    decreases from - to,
{
    if from <= to {
        locals
    } else {
        let k = from - 1;
        let after = if k < vars.len() && vars[k].pidx < locals.len() {
            locals.update(
                vars[k].pidx as int,
                LocVar { endpc, ..locals[vars[k].pidx as int] },
            )
        } else {
            locals
        };
        close_locals(after, vars, to, k, endpc)
    }
}

/// Remove the active variables above `tolevel`: their debug records end at `endpc`, the
/// active count drops to `tolevel`, and the variable list is cut there.
pub fn remove_vars(
    actvar: &mut Vec<VarDesc>,
    locals: &mut Vec<LocVar>,
    nactvar: &mut u16,
    tolevel: u16,
    endpc: u32,
)
    ensures
        *final(nactvar) == (if *old(nactvar) > tolevel { tolevel } else { *old(nactvar) }),
        final(locals)@ == close_locals(old(locals)@, old(actvar)@, *final(nactvar) as int, *old(nactvar) as int, endpc),
        final(actvar)@ == (if old(actvar)@.len() > *final(nactvar) {
            old(actvar)@.subrange(0, *final(nactvar) as int)
        } else {
            old(actvar)@
        }),
{
    while *nactvar > tolevel
        invariant
            *nactvar >= (if *old(nactvar) > tolevel { tolevel } else { *old(nactvar) }),
            *nactvar <= *old(nactvar),
            *actvar == *old(actvar),
            close_locals(old(locals)@, old(actvar)@, (if *old(nactvar) > tolevel { tolevel } else { *old(nactvar) }) as int, *old(nactvar) as int, endpc)
                == close_locals(locals@, old(actvar)@, (if *old(nactvar) > tolevel { tolevel } else { *old(nactvar) }) as int, *nactvar as int, endpc),
        decreases *nactvar,
    {
        *nactvar = *nactvar - 1;
        let k = *nactvar as usize;
        if k < actvar.len() {
            let pidx = actvar[k].pidx;
            if pidx < locals.len() {
                let old_local = &locals[pidx];
                let updated = LocVar { name: old_local.name.clone(), startpc: old_local.startpc, endpc };
                locals.set(pidx, updated);
            }
        }
    }
    actvar.truncate(*nactvar as usize);
}

} // verus!

verus! {

/// A chunk's display name is never longer than `MAX_SRC_LEN` bytes.
pub proof fn lemma_format_source_fits(src: Seq<u8>)
    ensures
        format_source_bytes(src).len() <= MAX_SRC_LEN,
{
    lemma_first_newline_bound(src);
}

/// The first newline lies within the source.
proof fn lemma_first_newline_bound(src: Seq<u8>)
    ensures
        0 <= first_newline(src) <= src.len(),
    decreases src.len(),
{
    if src.len() > 0 && src[0] != 10 {
        lemma_first_newline_bound(src.drop_first());
    }
}

} // verus!
