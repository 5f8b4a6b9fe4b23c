//! The signature grammar: a recursive-descent parser from a wire type
//! signature to a sequence of type trees.
use vstd::prelude::*;
use vstd::string::*;

verus! {

broadcast use vstd::std_specs::vec::group_vec_axioms;

/// One complete type of a signature.
#[derive(Debug)]
pub enum TypeNode {
    Byte,
    Boolean,
    Int16,
    Uint16,
    Int32,
    Uint32,
    Int64,
    Uint64,
    String,
    ObjectPath,
    Signature,
    Variant,
    Array(Box<TypeNode>),
    Struct(Vec<TypeNode>),
    DictEntry(Box<TypeNode>, Box<TypeNode>),
}

/// Why a signature string could not be parsed.
#[derive(PartialEq, Eq, Structural, Clone, Copy, Debug)]
pub enum SignatureError {
    /// `a` with no element type after it.
    ArrayWasLast,
    /// `()`.
    StructIsEmpty,
    /// `(` without its `)`.
    StructNotClosed,
    /// `a{` with its key and value but without `}`.
    DictEntryNotClosed,
    /// `a{` with nothing after it.
    MissingKeyType,
    /// A dict entry whose key is not a single-character type.
    DictKeyNotBasic,
    /// `{` anywhere but right after an `a`.
    DictEntryOutsideArray,
    /// `a{` with a key type and nothing after it.
    MissingValueType,
    /// A character that starts no type.
    UnknownSignature(char),
}

/// The single-character types.
pub open spec fn is_basic(c: char) -> bool {
    c == 'y' || c == 'b' || c == 'n' || c == 'q' || c == 'i' || c == 'u' || c == 'x'
        || c == 't' || c == 's' || c == 'o' || c == 'g' || c == 'v'
}

fn basic_char(c: char) -> (r: bool)
    ensures
        r == is_basic(c),
{
    c == 'y' || c == 'b' || c == 'n' || c == 'q' || c == 'i' || c == 'u' || c == 'x' || c == 't'
        || c == 's' || c == 'o' || c == 'g' || c == 'v'
}

/// The canonical spelling of a type.
pub open spec fn sig(t: TypeNode) -> Seq<char>
    decreases t,
{
    match t {
        TypeNode::Byte => seq!['y'],
        TypeNode::Boolean => seq!['b'],
        TypeNode::Int16 => seq!['n'],
        TypeNode::Uint16 => seq!['q'],
        TypeNode::Int32 => seq!['i'],
        TypeNode::Uint32 => seq!['u'],
        TypeNode::Int64 => seq!['x'],
        TypeNode::Uint64 => seq!['t'],
        TypeNode::String => seq!['s'],
        TypeNode::ObjectPath => seq!['o'],
        TypeNode::Signature => seq!['g'],
        TypeNode::Variant => seq!['v'],
        TypeNode::Array(e) => seq!['a'] + sig(*e),
        TypeNode::Struct(v) => seq!['('] + sigs(v@) + seq![')'],
        TypeNode::DictEntry(k, v) => seq!['{'] + sig(*k) + sig(*v) + seq!['}'],
    }
}

/// The spellings of a sequence of types, one after the other.
pub open spec fn sigs(s: Seq<TypeNode>) -> Seq<char>
    decreases s,
{
    if s.len() == 0 {
        Seq::empty()
    } else {
        sigs(s.drop_last()) + sig(s.last())
    }
}


/// Where the single complete type that starts at `i` ends (one past its last
/// character), or why none starts there; `None` when `i` is past the end.
pub open spec fn scan(s: Seq<char>, i: int) -> Option<Result<int, SignatureError>>
    decreases s.len() - i, 1int,
{
    if i < 0 || i >= s.len() {
        None
    } else if is_basic(s[i]) {
        Some(Ok(i + 1))
    } else if s[i] == 'a' {
        if i + 1 < s.len() && s[i + 1] == '{' {
            Some(scan_dict_entry(s, i + 1))
        } else {
            match scan(s, i + 1) {
                None => Some(Err(SignatureError::ArrayWasLast)),
                Some(r) => Some(r),
            }
        }
    } else if s[i] == '(' {
        Some(scan_struct(s, i + 1, 0))
    } else if s[i] == '{' {
        Some(Err(SignatureError::DictEntryOutsideArray))
    } else {
        Some(Err(SignatureError::UnknownSignature(s[i])))
    }
}

/// The dict entry whose `{` stands at `j`, right after an `a`: a
/// single-character key type, any value type, then `}`.
pub open spec fn scan_dict_entry(s: Seq<char>, j: int) -> Result<int, SignatureError>
    decreases s.len() - j, 0int,
{
    if j < 0 || j + 1 >= s.len() {
        Err(SignatureError::MissingKeyType)
    } else if !is_basic(s[j + 1]) {
        Err(SignatureError::DictKeyNotBasic)
    } else {
        match scan(s, j + 2) {
            None => Err(SignatureError::MissingValueType),
            Some(Err(e)) => Err(e),
            Some(Ok(m)) => if m < s.len() && s[m] == '}' {
                Ok(m + 1)
            } else {
                Err(SignatureError::DictEntryNotClosed)
            },
        }
    }
}

/// The members of a struct from `j` on, `n` of them already read: where the
/// closing `)` ends, or why there is none.
pub open spec fn scan_struct(s: Seq<char>, j: int, n: nat) -> Result<int, SignatureError>
    decreases s.len() - j, 2int,
{
    if j < 0 || j >= s.len() {
        Err(SignatureError::StructNotClosed)
    } else if s[j] == ')' {
        if n == 0 {
            Err(SignatureError::StructIsEmpty)
        } else {
            Ok(j + 1)
        }
    } else {
        match scan(s, j) {
            None => Err(SignatureError::StructNotClosed),
            Some(Err(e)) => Err(e),
            Some(Ok(k)) => if k <= j || k > s.len() {
                Err(SignatureError::StructNotClosed)
            } else {
                scan_struct(s, k, n + 1)
            },
        }
    }
}

/// `s` splits into complete types from `i` to its end.
pub open spec fn scan_all(s: Seq<char>, i: int) -> Result<(), SignatureError>
    decreases s.len() - i,
{
    match scan(s, i) {
        None => Ok(()),
        Some(Err(e)) => Err(e),
        Some(Ok(k)) => if k <= i || k > s.len() {
            Err(SignatureError::StructNotClosed)
        } else {
            scan_all(s, k)
        },
    }
}

/// A signature that parses: a sequence of complete types.
pub open spec fn valid_signature(s: Seq<char>) -> bool {
    scan_all(s, 0) is Ok
}

/// Reads a signature one complete type at a time.
pub struct SignatureIterator {
    signature: String,
    offset: usize,
}

impl SignatureIterator {
    /// The signature being read.
    pub closed spec fn text(&self) -> Seq<char> {
        self.signature@
    }

    /// How far the signature has been read.
    pub closed spec fn position(&self) -> int {
        self.offset as int
    }

    /// The position lies within the signature.
    pub closed spec fn wf(&self) -> bool {
        self.offset <= self.signature@.len()
    }

    /// Starts reading `signature` from its first character.
    pub fn new(signature: &str) -> (r: SignatureIterator)
        ensures
            r.wf(),
            0 <= r.position() <= r.text().len(),
            r.text() == signature@,
            r.position() == 0,
    {
        SignatureIterator { signature: String::from_str(signature), offset: 0 }
    }

    fn basic(&mut self, len: usize, node: TypeNode) -> (r: Result<Option<TypeNode>, SignatureError>)
        requires
            old(self).offset < len == old(self).signature@.len(),
            sig(node) == seq![old(self).signature@[old(self).offset as int]],
        ensures
            final(self).signature == old(self).signature,
            final(self).offset == old(self).offset + 1,
            r == Ok::<Option<TypeNode>, SignatureError>(Some(node)),
    {
        self.offset = self.offset + 1;
        Ok(Some(node))
    }

    /// Reads the next complete type: `None` at the end of the signature.
    pub fn next(&mut self) -> (r: Option<Result<TypeNode, SignatureError>>)
        requires
            old(self).wf(),
        ensures
            final(self).wf(),
            final(self).text() == old(self).text(),
            0 <= final(self).position() <= final(self).text().len(),
            match r {
                None => scan(old(self).text(), old(self).position()) is None,
                Some(Ok(t)) => {
                    &&& scan(old(self).text(), old(self).position()) == Some(
                        Ok::<int, SignatureError>(final(self).position()),
                    )
                    &&& old(self).position() < final(self).position()
                    &&& sig(t) == old(self).text().subrange(
                        old(self).position(),
                        final(self).position(),
                    )
                },
                Some(Err(e)) => scan(old(self).text(), old(self).position()) == Some(
                    Err::<int, SignatureError>(e),
                ),
            },
    {
        let len = self.signature.as_str().unicode_len();
        match self.get_next(len) {
            Ok(None) => None,
            Ok(Some(t)) => Some(Ok(t)),
            Err(e) => Some(Err(e)),
        }
    }

    /// Reads the dict entry whose `{` is at the current position.
    fn dict_entry(&mut self, len: usize) -> (r: Result<TypeNode, SignatureError>)
        requires
            old(self).wf(),
            len == old(self).signature@.len(),
            old(self).offset < len,
            old(self).signature@[old(self).offset as int] == '{',
        ensures
            final(self).wf(),
            final(self).signature == old(self).signature,
            match r {
                Ok(t) => {
                    &&& scan_dict_entry(old(self).signature@, old(self).offset as int) == Ok::<
                        int,
                        SignatureError,
                    >(final(self).offset as int)
                    &&& old(self).offset < final(self).offset
                    &&& sig(t) == old(self).signature@.subrange(
                        old(self).offset as int,
                        final(self).offset as int,
                    )
                },
                Err(e) => scan_dict_entry(old(self).signature@, old(self).offset as int) == Err::<
                    int,
                    SignatureError,
                >(e),
            },
        decreases len - old(self).offset, 0int,
    {
        let ghost s = self.signature@;
        let start = self.offset;
        if start + 1 >= len {
            return Err(SignatureError::MissingKeyType);
        }
        if !basic_char(self.signature.as_str().get_char(start + 1)) {
            return Err(SignatureError::DictKeyNotBasic);
        }
        self.offset = start + 1;
        let key = match self.get_next(len) {
            Ok(Some(k)) => k,
            _ => {
                return Err(SignatureError::MissingKeyType);
            },
        };
        let k = self.offset;
        assert(k == start + 2);
        let value = match self.get_next(len) {
            Ok(Some(v)) => v,
            Ok(None) => {
                return Err(SignatureError::MissingValueType);
            },
            Err(e) => {
                return Err(e);
            },
        };
        let m = self.offset;
        if m < len && self.signature.as_str().get_char(m) == '}' {
            self.offset = m + 1;
            assert(s.subrange(start as int, self.offset as int) =~= seq!['{']
                + s.subrange(start + 1, k as int) + s.subrange(k as int, m as int) + seq!['}']);
            Ok(TypeNode::DictEntry(Box::new(key), Box::new(value)))
        } else {
            Err(SignatureError::DictEntryNotClosed)
        }
    }

    /// Reads the next complete type.
    fn get_next(&mut self, len: usize) -> (r: Result<Option<TypeNode>, SignatureError>)
        requires
            old(self).wf(),
            len == old(self).signature@.len(),
        ensures
            final(self).wf(),
            final(self).signature == old(self).signature,
            match r {
                Ok(None) => scan(old(self).signature@, old(self).offset as int) is None,
                Ok(Some(t)) => {
                    &&& scan(old(self).signature@, old(self).offset as int) == Some(
                        Ok::<int, SignatureError>(final(self).offset as int),
                    )
                    &&& old(self).offset < final(self).offset
                    &&& sig(t) == old(self).signature@.subrange(
                        old(self).offset as int,
                        final(self).offset as int,
                    )
                },
                Err(e) => scan(old(self).signature@, old(self).offset as int) == Some(
                    Err::<int, SignatureError>(e),
                ),
            },
        decreases len - old(self).offset, 1int,
    {
        let ghost s = self.signature@;
        let ghost text = self.signature;
        let start = self.offset;
        if start >= len {
            return Ok(None);
        }
        let c = self.signature.as_str().get_char(start);
        match c {
            'y' => self.basic(len, TypeNode::Byte),
            'b' => self.basic(len, TypeNode::Boolean),
            'n' => self.basic(len, TypeNode::Int16),
            'q' => self.basic(len, TypeNode::Uint16),
            'i' => self.basic(len, TypeNode::Int32),
            'u' => self.basic(len, TypeNode::Uint32),
            'x' => self.basic(len, TypeNode::Int64),
            't' => self.basic(len, TypeNode::Uint64),
            's' => self.basic(len, TypeNode::String),
            'o' => self.basic(len, TypeNode::ObjectPath),
            'g' => self.basic(len, TypeNode::Signature),
            'v' => self.basic(len, TypeNode::Variant),
            'a' => {
                self.offset = start + 1;
                if start + 1 < len && self.signature.as_str().get_char(start + 1) == '{' {
                    return match self.dict_entry(len) {
                        Ok(d) => {
                            assert(s.subrange(start as int, self.offset as int) =~= seq!['a']
                                + s.subrange(start + 1, self.offset as int));
                            Ok(Some(TypeNode::Array(Box::new(d))))
                        },
                        Err(e) => Err(e),
                    };
                }
                match self.get_next(len) {
                    Ok(Some(e)) => {
                        assert(s.subrange(start as int, self.offset as int) =~= seq!['a']
                            + s.subrange(start + 1, self.offset as int));
                        Ok(Some(TypeNode::Array(Box::new(e))))
                    },
                    Ok(None) => Err(SignatureError::ArrayWasLast),
                    Err(e) => Err(e),
                }
            },
            '(' => {
                self.offset = start + 1;
                let mut members: Vec<TypeNode> = Vec::new();
                loop
                    invariant
                        self.signature == text,
                        text == old(self).signature,
                        text@ == s,
                        old(self).offset == start,
                        len == s.len(),
                        start < len,
                        s[start as int] == '(',
                        start + 1 <= self.offset <= len,
                        sigs(members@) == s.subrange(start + 1, self.offset as int),
                        scan(s, start as int) == Some(
                            scan_struct(s, self.offset as int, members@.len()),
                        ),
                    decreases len - self.offset,
                {
                    let j = self.offset;
                    if j >= len {
                        return Err(SignatureError::StructNotClosed);
                    }
                    let d = self.signature.as_str().get_char(j);
                    if d == ')' {
                        if members.len() == 0 {
                            return Err(SignatureError::StructIsEmpty);
                        }
                        self.offset = j + 1;
                        assert(s.subrange(start as int, self.offset as int) =~= seq!['(']
                            + s.subrange(start + 1, j as int) + seq![')']);
                        return Ok(Some(TypeNode::Struct(members)));
                    }
                    match self.get_next(len) {
                        Ok(Some(t)) => {
                            let ghost before = members@;
                            members.push(t);
                            assert(members@.drop_last() == before);
                            assert(s.subrange(start + 1, self.offset as int) =~= s.subrange(
                                start + 1,
                                j as int,
                            ) + s.subrange(j as int, self.offset as int));
                        },
                        Ok(None) => {
                            return Err(SignatureError::StructNotClosed);
                        },
                        Err(e) => {
                            return Err(e);
                        },
                    }
                }
            },
            '{' => Err(SignatureError::DictEntryOutsideArray),
            _ => Err(SignatureError::UnknownSignature(c)),
        }
    }
}

/// Parses a whole signature into its complete types, in order.
pub fn parse_signature(signature: &str) -> (r: Result<Vec<TypeNode>, SignatureError>)
    ensures
        (r is Ok) <==> valid_signature(signature@),
        match r {
            Ok(v) => sigs(v@) == signature@,
            Err(e) => scan_all(signature@, 0) == Err::<(), SignatureError>(e),
        },
{
    let mut iter = SignatureIterator::new(signature);
    let mut nodes: Vec<TypeNode> = Vec::new();
    let ghost s = signature@;
    assert(s.subrange(0, 0) =~= Seq::<char>::empty());
    loop
        invariant
            iter.wf(),
            iter.text() == s,
            s == signature@,
            0 <= iter.position() <= s.len(),
            sigs(nodes@) == s.subrange(0, iter.position()),
            scan_all(s, 0) == scan_all(s, iter.position()),
        decreases s.len() - iter.position(),
    {
        let ghost p = iter.position();
        match iter.next() {
            None => {
                assert(s.subrange(0, p) =~= s);
                return Ok(nodes);
            },
            Some(Ok(t)) => {
                let ghost before = nodes@;
                nodes.push(t);
                assert(nodes@.drop_last() == before);
                assert(s.subrange(0, iter.position()) =~= s.subrange(0, p) + s.subrange(
                    p,
                    iter.position(),
                ));
            },
            Some(Err(e)) => {
                return Err(e);
            },
        }
    }
}

impl TypeNode {
    /// The canonical spelling of this type, derived from its structure.
    pub fn signature(&self) -> (r: String)
        ensures
            r@ == sig(*self),
        decreases self,
    {
        match self {
            TypeNode::Byte => {
                proof {
                    reveal_strlit("y");
                }
                String::from_str("y")
            },
            TypeNode::Boolean => {
                proof {
                    reveal_strlit("b");
                }
                String::from_str("b")
            },
            TypeNode::Int16 => {
                proof {
                    reveal_strlit("n");
                }
                String::from_str("n")
            },
            TypeNode::Uint16 => {
                proof {
                    reveal_strlit("q");
                }
                String::from_str("q")
            },
            TypeNode::Int32 => {
                proof {
                    reveal_strlit("i");
                }
                String::from_str("i")
            },
            TypeNode::Uint32 => {
                proof {
                    reveal_strlit("u");
                }
                String::from_str("u")
            },
            TypeNode::Int64 => {
                proof {
                    reveal_strlit("x");
                }
                String::from_str("x")
            },
            TypeNode::Uint64 => {
                proof {
                    reveal_strlit("t");
                }
                String::from_str("t")
            },
            TypeNode::String => {
                proof {
                    reveal_strlit("s");
                }
                String::from_str("s")
            },
            TypeNode::ObjectPath => {
                proof {
                    reveal_strlit("o");
                }
                String::from_str("o")
            },
            TypeNode::Signature => {
                proof {
                    reveal_strlit("g");
                }
                String::from_str("g")
            },
            TypeNode::Variant => {
                proof {
                    reveal_strlit("v");
                }
                String::from_str("v")
            },
            TypeNode::Array(e) => {
                let inner = e.signature();
                proof {
                    reveal_strlit("a");
                }
                let mut r = String::from_str("a");
                r.append(inner.as_str());
                r
            },
            TypeNode::Struct(v) => {
                proof {
                    reveal_strlit("(");
                    reveal_strlit(")");
                }
                let mut r = String::from_str("(");
                let mut i: usize = 0;
                while i < v.len()
                    invariant
                        0 <= i <= v@.len(),
                        *self == TypeNode::Struct(*v),
                        r@ == seq!['('] + sigs(v@.subrange(0, i as int)),
                    decreases v@.len() - i,
                {
                    proof {
                        assert(decreases_to!(*self => (*self)->Struct_0));
                        assert(decreases_to!(*v => v@));
                        assert(decreases_to!(v@ => v@[i as int]));
                    }
                    let inner = v[i].signature();
                    r.append(inner.as_str());
                    assert(v@.subrange(0, i + 1).drop_last() =~= v@.subrange(0, i as int));
                    i = i + 1;
                }
                assert(v@.subrange(0, i as int) =~= v@);
                r.append(")");
                r
            },
            TypeNode::DictEntry(k, v) => {
                let key = k.signature();
                let value = v.signature();
                proof {
                    reveal_strlit("{");
                    reveal_strlit("}");
                }
                let mut r = String::from_str("{");
                r.append(key.as_str());
                r.append(value.as_str());
                r.append("}");
                r
            },
        }
    }
}

/// The spelling of a sequence of types, one after the other.
pub fn signatures(nodes: &Vec<TypeNode>) -> (r: String)
    ensures
        r@ == sigs(nodes@),
{
    let mut r = String::new();
    let mut i: usize = 0;
    while i < nodes.len()
        invariant
            0 <= i <= nodes@.len(),
            r@ == sigs(nodes@.subrange(0, i as int)),
        decreases nodes@.len() - i,
    {
        let inner = nodes[i].signature();
        r.append(inner.as_str());
        assert(nodes@.subrange(0, i + 1).drop_last() =~= nodes@.subrange(0, i as int));
        i = i + 1;
    }
    assert(nodes@.subrange(0, i as int) =~= nodes@);
    r
}

} // verus!
