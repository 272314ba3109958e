//! The text STL dialect: keywords and numbers, separated by blanks.
use vstd::prelude::*;
use vstd::slice::slice_subrange;
use crate::error::{Expected, TextError};
use crate::geometry::{
    first_non_finite, lemma_first_non_finite, outcome, Mesh, Point3, Triangle, Vector3, Vertex,
};
use crate::scalar::Scalar;

verus! {

/// A space, a tab, a line feed or a carriage return.
pub open spec fn is_blank(byte: u8) -> bool {
    byte == 0x20 || byte == 0x09 || byte == 0x0a || byte == 0x0d
}

/// The first place at or behind `from` that holds no blank: the end of the
/// text where only blanks follow.
pub open spec fn skip_blanks(text: Seq<u8>, from: int) -> int
    decreases text.len() - from,
{
    if 0 <= from < text.len() && is_blank(text[from]) {
        skip_blanks(text, from + 1)
    } else {
        from
    }
}

/// The first place at or behind `from` that holds a blank: the end of the
/// text where none follows.
pub open spec fn skip_word(text: Seq<u8>, from: int) -> int
    decreases text.len() - from,
{
    if 0 <= from < text.len() && !is_blank(text[from]) {
        skip_word(text, from + 1)
    } else {
        from
    }
}

/// The spelling of a keyword. `Blank` and `Number` are no keywords and are
/// spelled with no letters.
pub open spec fn keyword(word: Expected) -> Seq<u8> {
    match word {
        Expected::Solid => seq!['s' as u8, 'o' as u8, 'l' as u8, 'i' as u8, 'd' as u8],
        Expected::Facet => seq!['f' as u8, 'a' as u8, 'c' as u8, 'e' as u8, 't' as u8],
        Expected::Normal => seq![
            'n' as u8,
            'o' as u8,
            'r' as u8,
            'm' as u8,
            'a' as u8,
            'l' as u8,
        ],
        Expected::Outer => seq!['o' as u8, 'u' as u8, 't' as u8, 'e' as u8, 'r' as u8],
        Expected::Loop => seq!['l' as u8, 'o' as u8, 'o' as u8, 'p' as u8],
        Expected::Vertex => seq![
            'v' as u8,
            'e' as u8,
            'r' as u8,
            't' as u8,
            'e' as u8,
            'x' as u8,
        ],
        Expected::EndLoop => seq![
            'e' as u8,
            'n' as u8,
            'd' as u8,
            'l' as u8,
            'o' as u8,
            'o' as u8,
            'p' as u8,
        ],
        Expected::EndFacet => seq![
            'e' as u8,
            'n' as u8,
            'd' as u8,
            'f' as u8,
            'a' as u8,
            'c' as u8,
            'e' as u8,
            't' as u8,
        ],
        Expected::EndSolid => seq![
            'e' as u8,
            'n' as u8,
            'd' as u8,
            's' as u8,
            'o' as u8,
            'l' as u8,
            'i' as u8,
            'd' as u8,
        ],
        Expected::Blank => seq![],
        Expected::Number => seq![],
    }
}

/// The bytes of `text` from `at` on begin with `word`.
pub open spec fn starts_with(text: Seq<u8>, at: int, word: Seq<u8>) -> bool {
    &&& 0 <= at
    &&& at + word.len() <= text.len()
    &&& text.subrange(at, at + word.len()) == word
}

/// Blanks, if any, and then the keyword `word`: the place behind the
/// keyword, or the place where something else stands.
pub open spec fn keyword_at(text: Seq<u8>, from: int, word: Expected) -> Result<int, TextError> {
    let at = skip_blanks(text, from);
    if starts_with(text, at, keyword(word)) {
        Ok(at + keyword(word).len())
    } else {
        Err(TextError::Syntax { offset: at as usize, expected: word })
    }
}

/// One blank at least, and then the keyword `word`.
pub open spec fn spaced_keyword_at(text: Seq<u8>, from: int, word: Expected) -> Result<
    int,
    TextError,
> {
    if skip_blanks(text, from) == from {
        Err(TextError::Syntax { offset: from as usize, expected: Expected::Blank })
    } else {
        keyword_at(text, from, word)
    }
}

/// The place that a reader has reached, as an unbounded integer.
pub open spec fn reached(r: Result<usize, TextError>) -> Result<int, TextError> {
    match r {
        Ok(next) => Ok(next as int),
        Err(e) => Err(e),
    }
}

pub proof fn lemma_skip_blanks(text: Seq<u8>, from: int)
    requires
        0 <= from <= text.len(),
    ensures
        from <= skip_blanks(text, from) <= text.len(),
        forall|i: int| from <= i < skip_blanks(text, from) ==> is_blank(#[trigger] text[i]),
        skip_blanks(text, from) < text.len() ==> !is_blank(text[skip_blanks(text, from)]),
    decreases text.len() - from,
{
    if from < text.len() && is_blank(text[from]) {
        lemma_skip_blanks(text, from + 1);
    }
}

fn blank(byte: u8) -> (r: bool)
    ensures
        r == is_blank(byte),
{
    byte == 0x20 || byte == 0x09 || byte == 0x0a || byte == 0x0d
}

fn after_blanks(data: &[u8], from: usize) -> (r: usize)
    requires
        from <= data.len(),
    ensures
        r == skip_blanks(data@, from as int),
        from <= r <= data.len(),
{
    let mut at: usize = from;
    while at < data.len() && blank(data[at])
        invariant
            from <= at <= data.len(),
            skip_blanks(data@, from as int) == skip_blanks(data@, at as int),
        decreases data.len() - at,
    {
        at += 1;
    }
    at
}

fn after_word(data: &[u8], from: usize) -> (r: usize)
    requires
        from <= data.len(),
    ensures
        r == skip_word(data@, from as int),
        from <= r <= data.len(),
{
    let mut at: usize = from;
    while at < data.len() && !blank(data[at])
        invariant
            from <= at <= data.len(),
            skip_word(data@, from as int) == skip_word(data@, at as int),
        decreases data.len() - at,
    {
        at += 1;
    }
    at
}

fn spelling(word: Expected) -> (r: Vec<u8>)
    ensures
        r@ == keyword(word),
{
    let r: Vec<u8> = match word {
        Expected::Solid => vec!['s' as u8, 'o' as u8, 'l' as u8, 'i' as u8, 'd' as u8],
        Expected::Facet => vec!['f' as u8, 'a' as u8, 'c' as u8, 'e' as u8, 't' as u8],
        Expected::Normal => vec!['n' as u8, 'o' as u8, 'r' as u8, 'm' as u8, 'a' as u8, 'l' as u8],
        Expected::Outer => vec!['o' as u8, 'u' as u8, 't' as u8, 'e' as u8, 'r' as u8],
        Expected::Loop => vec!['l' as u8, 'o' as u8, 'o' as u8, 'p' as u8],
        Expected::Vertex => vec!['v' as u8, 'e' as u8, 'r' as u8, 't' as u8, 'e' as u8, 'x' as u8],
        Expected::EndLoop => vec![
            'e' as u8,
            'n' as u8,
            'd' as u8,
            'l' as u8,
            'o' as u8,
            'o' as u8,
            'p' as u8,
        ],
        Expected::EndFacet => vec![
            'e' as u8,
            'n' as u8,
            'd' as u8,
            'f' as u8,
            'a' as u8,
            'c' as u8,
            'e' as u8,
            't' as u8,
        ],
        Expected::EndSolid => vec![
            'e' as u8,
            'n' as u8,
            'd' as u8,
            's' as u8,
            'o' as u8,
            'l' as u8,
            'i' as u8,
            'd' as u8,
        ],
        Expected::Blank => Vec::new(),
        Expected::Number => Vec::new(),
    };
    assert(r@ =~= keyword(word));
    r
}

/// Tells whether the keyword `word` stands at `at`.
pub fn begins(data: &[u8], at: usize, word: Expected) -> (r: bool)
    requires
        at <= data.len(),
    ensures
        r == starts_with(data@, at as int, keyword(word)),
{
    let letters = spelling(word);
    if letters.len() > data.len() - at {
        return false;
    }
    let mut i: usize = 0;
    while i < letters.len()
        invariant
            i <= letters.len(),
            at + letters.len() <= data.len(),
            letters@ == keyword(word),
            forall|k: int| 0 <= k < i ==> data@[at + k] == letters@[k],
        decreases letters.len() - i,
    {
        if data[at + i] != letters[i] {
            assert(data@.subrange(at as int, at + letters.len())[i as int] != letters@[i as int]);
            return false;
        }
        i += 1;
    }
    assert(data@.subrange(at as int, at + letters.len()) =~= letters@);
    true
}

fn take_keyword(data: &[u8], from: usize, word: Expected) -> (r: Result<usize, TextError>)
    requires
        from <= data.len(),
    ensures
        reached(r) == keyword_at(data@, from as int, word),
        r matches Ok(next) ==> from <= next <= data.len(),
{
    let at = after_blanks(data, from);
    if begins(data, at, word) {
        Ok(at + spelling(word).len())
    } else {
        Err(TextError::Syntax { offset: at, expected: word })
    }
}

fn take_spaced_keyword(data: &[u8], from: usize, word: Expected) -> (r: Result<usize, TextError>)
    requires
        from <= data.len(),
    ensures
        reached(r) == spaced_keyword_at(data@, from as int, word),
        r matches Ok(next) ==> from <= next <= data.len(),
{
    if after_blanks(data, from) == from {
        Err(TextError::Syntax { offset: from, expected: Expected::Blank })
    } else {
        take_keyword(data, from, word)
    }
}

/// What `nom::number::complete::float` makes of a text: the count of bytes
/// that it leaves behind the literal at the start of the text, and the bit
/// pattern of the number that it read there; `None` where it reads none.
pub uninterp spec fn number_prefix(input: Seq<u8>) -> Option<(nat, u32)>;

/// Calls `nom::number::complete::float` on `input`. The contract names what comes
/// back and claims no more of it.
#[verifier::external_body]
fn read_number(input: &[u8]) -> (r: Option<(usize, u32)>)
    ensures
        match r {
            Some((left, bits)) => number_prefix(input@) == Some((left as nat, bits)),
            None => number_prefix(input@).is_none(),
        },
{
    match nom::number::complete::float::<&[u8], nom::error::Error<&[u8]>>(input) {
        Ok((rest, value)) => Some((rest.len(), value.to_bits())),
        Err(_) => None,
    }
}

/// What the grammar makes of the number reader's answer, given at place
/// `from` of a text of `length` bytes: a number and the place behind it
/// where the reader took one byte at least and left `left` of the bytes
/// that it was shown, a complaint at `from` else.
pub open spec fn number_step(length: int, from: int, answer: Option<(nat, u32)>) -> Result<
    (Scalar, int),
    TextError,
> {
    match answer {
        Some((left, bits)) if from + left < length => Ok((Scalar { bits }, length - left)),
        _ => Err(TextError::Syntax { offset: from as usize, expected: Expected::Number }),
    }
}

/// A number that starts at `from`.
pub open spec fn number_at(text: Seq<u8>, from: int) -> Result<(Scalar, int), TextError> {
    number_step(text.len() as int, from, number_prefix(text.subrange(from, text.len() as int)))
}

/// One blank at least, and then a number.
pub open spec fn spaced_number_at(text: Seq<u8>, from: int) -> Result<(Scalar, int), TextError> {
    if skip_blanks(text, from) == from {
        Err(TextError::Syntax { offset: from as usize, expected: Expected::Blank })
    } else {
        number_at(text, skip_blanks(text, from))
    }
}

/// Three numbers with blanks between them; blanks may come first.
pub open spec fn triple_at(text: Seq<u8>, from: int) -> Result<
    ((Scalar, Scalar, Scalar), int),
    TextError,
> {
    match number_at(text, skip_blanks(text, from)) {
        Err(e) => Err(e),
        Ok((x, a)) => match spaced_number_at(text, a) {
            Err(e) => Err(e),
            Ok((y, b)) => match spaced_number_at(text, b) {
                Err(e) => Err(e),
                Ok((z, c)) => Ok(((x, y, z), c)),
            },
        },
    }
}

/// `vertex` and three coordinates: a corner that carries `normal`.
pub open spec fn vertex_at(text: Seq<u8>, from: int, normal: Vector3) -> Result<
    (Vertex, int),
    TextError,
> {
    match keyword_at(text, from, Expected::Vertex) {
        Err(e) => Err(e),
        Ok(a) => match triple_at(text, a) {
            Err(e) => Err(e),
            Ok(((x, y, z), b)) => Ok((Vertex { position: Point3 { x, y, z }, normal }, b)),
        },
    }
}

/// `facet normal` and the three numbers of the normal, then `outer loop`.
pub open spec fn facet_head_at(text: Seq<u8>, from: int) -> Result<(Vector3, int), TextError> {
    match keyword_at(text, from, Expected::Facet) {
        Err(e) => Err(e),
        Ok(a) => match spaced_keyword_at(text, a, Expected::Normal) {
            Err(e) => Err(e),
            Ok(b) => match triple_at(text, b) {
                Err(e) => Err(e),
                Ok(((x, y, z), c)) => match keyword_at(text, c, Expected::Outer) {
                    Err(e) => Err(e),
                    Ok(d) => match spaced_keyword_at(text, d, Expected::Loop) {
                        Err(e) => Err(e),
                        Ok(end) => Ok((Vector3 { x, y, z }, end)),
                    },
                },
            },
        },
    }
}

/// Three corners, each with `normal`.
pub open spec fn corners_at(text: Seq<u8>, from: int, normal: Vector3) -> Result<
    (Triangle, int),
    TextError,
> {
    match vertex_at(text, from, normal) {
        Err(e) => Err(e),
        Ok((v0, a)) => match vertex_at(text, a, normal) {
            Err(e) => Err(e),
            Ok((v1, b)) => match vertex_at(text, b, normal) {
                Err(e) => Err(e),
                Ok((v2, c)) => Ok((Triangle::of(v0, v1, v2), c)),
            },
        },
    }
}

/// One facet, from `facet` to `endfacet`: the triangle of its three
/// corners, each with the normal that the facet declares.
pub open spec fn facet_at(text: Seq<u8>, from: int) -> Result<(Triangle, int), TextError> {
    match facet_head_at(text, from) {
        Err(e) => Err(e),
        Ok((normal, a)) => match corners_at(text, a, normal) {
            Err(e) => Err(e),
            Ok((triangle, b)) => match keyword_at(text, b, Expected::EndLoop) {
                Err(e) => Err(e),
                Ok(c) => match keyword_at(text, c, Expected::EndFacet) {
                    Err(e) => Err(e),
                    Ok(end) => Ok((triangle, end)),
                },
            },
        },
    }
}

/// The facets from `from` on, as long as the next word begins with `facet`.
/// A facet that begins and is not well made spoils the whole.
pub open spec fn facets_from(text: Seq<u8>, from: int) -> Result<(Seq<Triangle>, int), TextError>
    decreases text.len() - from,
{
    if 0 <= from <= text.len() && starts_with(
        text,
        skip_blanks(text, from),
        keyword(Expected::Facet),
    ) {
        match facet_at(text, from) {
            Err(e) => Err(e),
            Ok((triangle, next)) => {
                proof {
                    lemma_facet_advances(text, from);
                }
                match facets_from(text, next) {
                    Err(e) => Err(e),
                    Ok((more, end)) => Ok((seq![triangle] + more, end)),
                }
            },
        }
    } else {
        Ok((Seq::empty(), from))
    }
}

/// The place behind the name of the solid. The name is the word that
/// follows `solid`, unless that word begins with `facet` or with `endsolid`:
/// then the solid has no name.
pub open spec fn name_end(text: Seq<u8>, from: int) -> int {
    let at = skip_blanks(text, from);
    if starts_with(text, at, keyword(Expected::Facet)) || starts_with(
        text,
        at,
        keyword(Expected::EndSolid),
    ) {
        from
    } else {
        skip_word(text, at)
    }
}

/// The grammar of a whole text: `solid`, a name, facets, `endsolid`. What
/// follows `endsolid` is not looked at.
#[verifier::opaque]
pub open spec fn solid_at(text: Seq<u8>) -> Result<Seq<Triangle>, TextError> {
    match keyword_at(text, 0, Expected::Solid) {
        Err(e) => Err(e),
        Ok(a) => match facets_from(text, name_end(text, a)) {
            Err(e) => Err(e),
            Ok((triangles, b)) => match keyword_at(text, b, Expected::EndSolid) {
                Err(e) => Err(e),
                Ok(_) => Ok(triangles),
            },
        },
    }
}

/// What a byte sequence decodes to as text STL: the triangles of its
/// facets, in order, where the grammar is met and every corner is finite.
pub open spec fn decode_text(text: Seq<u8>) -> Result<Seq<Triangle>, TextError> {
    match solid_at(text) {
        Err(e) => Err(e),
        Ok(triangles) => match first_non_finite(triangles, 0) {
            Some(i) => Err(TextError::NonFinite { triangle: i as usize }),
            None => Ok(triangles),
        },
    }
}

pub proof fn lemma_keyword_advances(text: Seq<u8>, from: int, word: Expected)
    requires
        0 <= from <= text.len(),
    ensures
        keyword_at(text, from, word) matches Ok(next) ==> from + keyword(word).len() <= next
            <= text.len(),
        spaced_keyword_at(text, from, word) matches Ok(next) ==> from + keyword(word).len() < next
            <= text.len(),
{
    lemma_skip_blanks(text, from);
}

pub proof fn lemma_triple_advances(text: Seq<u8>, from: int)
    requires
        0 <= from <= text.len(),
    ensures
        triple_at(text, from) matches Ok((_, next)) ==> from < next <= text.len(),
{
    lemma_skip_blanks(text, from);
    if let Ok((_, a)) = number_at(text, skip_blanks(text, from)) {
        lemma_skip_blanks(text, a);
        if let Ok((_, b)) = spaced_number_at(text, a) {
            lemma_skip_blanks(text, b);
        }
    }
}

pub proof fn lemma_vertex_advances(text: Seq<u8>, from: int, normal: Vector3)
    requires
        0 <= from <= text.len(),
    ensures
        vertex_at(text, from, normal) matches Ok((_, next)) ==> from < next <= text.len(),
{
    lemma_keyword_advances(text, from, Expected::Vertex);
    if let Ok(a) = keyword_at(text, from, Expected::Vertex) {
        lemma_triple_advances(text, a);
    }
}

/// A facet takes bytes: the place behind it lies behind its start.
pub proof fn lemma_facet_advances(text: Seq<u8>, from: int)
    requires
        0 <= from <= text.len(),
    ensures
        facet_head_at(text, from) matches Ok((_, next)) ==> from < next <= text.len(),
        facet_at(text, from) matches Ok((_, next)) ==> from < next <= text.len(),
{
    lemma_keyword_advances(text, from, Expected::Facet);
    if let Ok(a) = keyword_at(text, from, Expected::Facet) {
        lemma_keyword_advances(text, a, Expected::Normal);
        if let Ok(b) = spaced_keyword_at(text, a, Expected::Normal) {
            lemma_triple_advances(text, b);
            if let Ok((_, c)) = triple_at(text, b) {
                lemma_keyword_advances(text, c, Expected::Outer);
                if let Ok(d) = keyword_at(text, c, Expected::Outer) {
                    lemma_keyword_advances(text, d, Expected::Loop);
                }
            }
        }
    }
    if let Ok((normal, a)) = facet_head_at(text, from) {
        lemma_vertex_advances(text, a, normal);
        if let Ok((_, b)) = vertex_at(text, a, normal) {
            lemma_vertex_advances(text, b, normal);
            if let Ok((_, c)) = vertex_at(text, b, normal) {
                lemma_vertex_advances(text, c, normal);
                if let Ok((_, d)) = vertex_at(text, c, normal) {
                    lemma_keyword_advances(text, d, Expected::EndLoop);
                    if let Ok(e) = keyword_at(text, d, Expected::EndLoop) {
                        lemma_keyword_advances(text, e, Expected::EndFacet);
                    }
                }
            }
        }
    }
}

/// What a reader has read, with the place behind it as an unbounded integer.
pub open spec fn stepped<T>(r: Result<(T, usize), TextError>) -> Result<(T, int), TextError> {
    match r {
        Ok((value, next)) => Ok((value, next as int)),
        Err(e) => Err(e),
    }
}

/// The answer of the number reader, with its count as a natural number.
pub open spec fn answered(answer: Option<(usize, u32)>) -> Option<(nat, u32)> {
    match answer {
        Some((left, bits)) => Some((left as nat, bits)),
        None => None,
    }
}

/// Triangles read so far, put before what a reader makes of the rest.
pub open spec fn continued(done: Seq<Triangle>, rest: Result<(Seq<Triangle>, int), TextError>)
    -> Result<(Seq<Triangle>, int), TextError> {
    match rest {
        Ok((more, end)) => Ok((done + more, end)),
        Err(e) => Err(e),
    }
}

/// Turns the number reader's answer for place `from` of a text of `length`
/// bytes into a number and the place behind it, or into a complaint.
pub fn take_number(length: usize, from: usize, answer: Option<(usize, u32)>) -> (r: Result<
    (Scalar, usize),
    TextError,
>)
    requires
        from <= length,
    ensures
        stepped(r) == number_step(length as int, from as int, answered(answer)),
        r matches Ok((_, next)) ==> from < next <= length,
{
    match answer {
        Some((left, bits)) => {
            if left < length - from {
                Ok((Scalar { bits }, length - left))
            } else {
                Err(TextError::Syntax { offset: from, expected: Expected::Number })
            }
        },
        None => Err(TextError::Syntax { offset: from, expected: Expected::Number }),
    }
}

fn number(data: &[u8], from: usize) -> (r: Result<(Scalar, usize), TextError>)
    requires
        from <= data.len(),
    ensures
        stepped(r) == number_at(data@, from as int),
        r matches Ok((_, next)) ==> from < next <= data.len(),
{
    let rest = slice_subrange(data, from, data.len());
    take_number(data.len(), from, read_number(rest))
}

fn spaced_number(data: &[u8], from: usize) -> (r: Result<(Scalar, usize), TextError>)
    requires
        from <= data.len(),
    ensures
        stepped(r) == spaced_number_at(data@, from as int),
        r matches Ok((_, next)) ==> from < next <= data.len(),
{
    let at = after_blanks(data, from);
    if at == from {
        Err(TextError::Syntax { offset: from, expected: Expected::Blank })
    } else {
        number(data, at)
    }
}

fn triple(data: &[u8], from: usize) -> (r: Result<((Scalar, Scalar, Scalar), usize), TextError>)
    requires
        from <= data.len(),
    ensures
        stepped(r) == triple_at(data@, from as int),
        r matches Ok((_, next)) ==> from < next <= data.len(),
{
    let (x, a) = match number(data, after_blanks(data, from)) {
        Ok(found) => found,
        Err(e) => return Err(e),
    };
    let (y, b) = match spaced_number(data, a) {
        Ok(found) => found,
        Err(e) => return Err(e),
    };
    let (z, c) = match spaced_number(data, b) {
        Ok(found) => found,
        Err(e) => return Err(e),
    };
    Ok(((x, y, z), c))
}

fn vertex(data: &[u8], from: usize, normal: Vector3) -> (r: Result<(Vertex, usize), TextError>)
    requires
        from <= data.len(),
    ensures
        stepped(r) == vertex_at(data@, from as int, normal),
        r matches Ok((_, next)) ==> from < next <= data.len(),
{
    let a = match take_keyword(data, from, Expected::Vertex) {
        Ok(next) => next,
        Err(e) => return Err(e),
    };
    let ((x, y, z), b) = match triple(data, a) {
        Ok(found) => found,
        Err(e) => return Err(e),
    };
    Ok((Vertex { position: Point3 { x, y, z }, normal }, b))
}

fn facet_head(data: &[u8], from: usize) -> (r: Result<(Vector3, usize), TextError>)
    requires
        from <= data.len(),
    ensures
        stepped(r) == facet_head_at(data@, from as int),
        r matches Ok((_, next)) ==> from < next <= data.len(),
{
    let a = match take_keyword(data, from, Expected::Facet) {
        Ok(next) => next,
        Err(e) => return Err(e),
    };
    let b = match take_spaced_keyword(data, a, Expected::Normal) {
        Ok(next) => next,
        Err(e) => return Err(e),
    };
    let ((x, y, z), c) = match triple(data, b) {
        Ok(found) => found,
        Err(e) => return Err(e),
    };
    let d = match take_keyword(data, c, Expected::Outer) {
        Ok(next) => next,
        Err(e) => return Err(e),
    };
    let end = match take_spaced_keyword(data, d, Expected::Loop) {
        Ok(next) => next,
        Err(e) => return Err(e),
    };
    Ok((Vector3 { x, y, z }, end))
}

fn corners(data: &[u8], from: usize, normal: Vector3) -> (r: Result<(Triangle, usize), TextError>)
    requires
        from <= data.len(),
    ensures
        stepped(r) == corners_at(data@, from as int, normal),
        r matches Ok((_, next)) ==> from < next <= data.len(),
{
    let (v0, a) = match vertex(data, from, normal) {
        Ok(found) => found,
        Err(e) => return Err(e),
    };
    let (v1, b) = match vertex(data, a, normal) {
        Ok(found) => found,
        Err(e) => return Err(e),
    };
    let (v2, c) = match vertex(data, b, normal) {
        Ok(found) => found,
        Err(e) => return Err(e),
    };
    Ok((Triangle::new(v0, v1, v2), c))
}

fn facet(data: &[u8], from: usize) -> (r: Result<(Triangle, usize), TextError>)
    requires
        from <= data.len(),
    ensures
        stepped(r) == facet_at(data@, from as int),
        r matches Ok((_, next)) ==> from < next <= data.len(),
{
    let (normal, a) = match facet_head(data, from) {
        Ok(found) => found,
        Err(e) => return Err(e),
    };
    let (triangle, b) = match corners(data, a, normal) {
        Ok(found) => found,
        Err(e) => return Err(e),
    };
    let c = match take_keyword(data, b, Expected::EndLoop) {
        Ok(next) => next,
        Err(e) => return Err(e),
    };
    let end = match take_keyword(data, c, Expected::EndFacet) {
        Ok(next) => next,
        Err(e) => return Err(e),
    };
    Ok((triangle, end))
}

fn facets(data: &[u8], from: usize) -> (r: Result<(Mesh, usize), TextError>)
    requires
        from <= data.len(),
    ensures
        match r {
            Ok((mesh, end)) => facets_from(data@, from as int) == Ok::<_, TextError>(
                (mesh@, end as int),
            ) && from <= end <= data.len(),
            Err(e) => facets_from(data@, from as int) == Err::<(Seq<Triangle>, int), _>(e),
        },
{
    let mut mesh = Mesh::new();
    let mut at: usize = from;
    loop
        invariant
            from <= at <= data.len(),
            facets_from(data@, from as int) == continued(mesh@, facets_from(data@, at as int)),
        decreases data.len() - at,
    {
        if !begins(data, after_blanks(data, at), Expected::Facet) {
            assert(mesh@ + Seq::<Triangle>::empty() =~= mesh@);
            return Ok((mesh, at));
        }
        match facet(data, at) {
            Err(e) => {
                return Err(e);
            },
            Ok((triangle, next)) => {
                proof {
                    let rest = facets_from(data@, next as int);
                    if let Ok((more, _)) = rest {
                        assert(mesh@ + (seq![triangle] + more) =~= mesh@.push(triangle) + more);
                    }
                }
                mesh.add_triangle(triangle);
                at = next;
            },
        }
    }
}

fn after_name(data: &[u8], from: usize) -> (r: usize)
    requires
        from <= data.len(),
    ensures
        r == name_end(data@, from as int),
        from <= r <= data.len(),
{
    let word = after_blanks(data, from);
    if begins(data, word, Expected::Facet) || begins(data, word, Expected::EndSolid) {
        from
    } else {
        after_word(data, word)
    }
}

/// Decodes text STL from its bytes.
pub fn parse_text(data: &[u8]) -> (r: Result<Mesh, TextError>)
    ensures
        outcome(r) == decode_text(data@),
        r matches Ok(mesh) ==> mesh.finite(),
{
    reveal(solid_at);
    let a = match take_keyword(data, 0, Expected::Solid) {
        Ok(next) => next,
        Err(e) => return Err(e),
    };
    let (mesh, b) = match facets(data, after_name(data, a)) {
        Ok(found) => found,
        Err(e) => return Err(e),
    };
    match take_keyword(data, b, Expected::EndSolid) {
        Ok(_) => {},
        Err(e) => return Err(e),
    };
    match mesh.first_non_finite_index() {
        Some(triangle) => Err(TextError::NonFinite { triangle }),
        None => {
            proof {
                lemma_first_non_finite(mesh@, 0);
            }
            Ok(mesh)
        },
    }
}

} // verus!
