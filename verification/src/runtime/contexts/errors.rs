use vstd::prelude::*;

use crate::bindings::gl;

verus! {

/// The bit that records a pending GL error, or `None` for an enum that is
/// not one of the seven recordable GL errors.
pub open spec fn spec_error_bit(error: u32) -> Option<u32> {
    if error == gl::INVALID_ENUM {
        Some(0u32)
    } else if error == gl::INVALID_VALUE {
        Some(1u32)
    } else if error == gl::INVALID_OPERATION {
        Some(2u32)
    } else if error == gl::STACK_OVERFLOW {
        Some(3u32)
    } else if error == gl::STACK_UNDERFLOW {
        Some(4u32)
    } else if error == gl::OUT_OF_MEMORY {
        Some(5u32)
    } else if error == gl::INVALID_FRAMEBUFFER_OPERATION {
        Some(6u32)
    } else {
        None
    }
}

/// The GL error that a bit below seven records.
pub open spec fn spec_bit_error(index: u32) -> u32 {
    if index == 0 {
        gl::INVALID_ENUM
    } else if index == 1 {
        gl::INVALID_VALUE
    } else if index == 2 {
        gl::INVALID_OPERATION
    } else if index == 3 {
        gl::STACK_OVERFLOW
    } else if index == 4 {
        gl::STACK_UNDERFLOW
    } else if index == 5 {
        gl::OUT_OF_MEMORY
    } else {
        gl::INVALID_FRAMEBUFFER_OPERATION
    }
}

/// Whether bit `i` of `bits` is set.
pub open spec fn bit_set(bits: u32, i: u32) -> bool {
    (bits >> i) & 1u32 == 1u32
}

/// The lowest set bit of a non-zero bitfield.
pub open spec fn is_lowest_set_bit(bits: u32, i: u32) -> bool {
    &&& i < 32
    &&& bit_set(bits, i)
    &&& forall|j: u32| j < i ==> !#[trigger] bit_set(bits, j)
}

/// The GL errors that a bitfield records as pending.
pub open spec fn pending_errors(bits: u32) -> Set<u32> {
    Set::new(|e: u32| spec_error_bit(e) matches Some(b) && bit_set(bits, b))
}

/// Whether taking the lowest pending error of `bits` is defined: either
/// nothing is pending, or the lowest set bit is one of the seven error bits.
pub open spec fn errors_readable(bits: u32) -> bool {
    bits == 0 || bits & 0x7fu32 != 0
}

/// The bitfield that recording `error` in `bits` leaves.
pub open spec fn recorded_bits(bits: u32, error: u32) -> u32 {
    match spec_error_bit(error) {
        Some(b) => bits | (1u32 << b),
        None => bits,
    }
}

/// The bit that records `error`, if it is a recordable GL error.
pub fn error_to_bit_index(error: u32) -> (r: Option<u32>)
    ensures
        r == spec_error_bit(error),
{
    if error == gl::INVALID_ENUM {
        Some(0)
    } else if error == gl::INVALID_VALUE {
        Some(1)
    } else if error == gl::INVALID_OPERATION {
        Some(2)
    } else if error == gl::STACK_OVERFLOW {
        Some(3)
    } else if error == gl::STACK_UNDERFLOW {
        Some(4)
    } else if error == gl::OUT_OF_MEMORY {
        Some(5)
    } else if error == gl::INVALID_FRAMEBUFFER_OPERATION {
        Some(6)
    } else {
        None
    }
}

/// The GL error that bit `index` records.
pub fn bit_index_to_error(index: u32) -> (r: u32)
    requires
        index < 7,
    ensures
        r == spec_bit_error(index),
{
    if index == 0 {
        gl::INVALID_ENUM
    } else if index == 1 {
        gl::INVALID_VALUE
    } else if index == 2 {
        gl::INVALID_OPERATION
    } else if index == 3 {
        gl::STACK_OVERFLOW
    } else if index == 4 {
        gl::STACK_UNDERFLOW
    } else if index == 5 {
        gl::OUT_OF_MEMORY
    } else {
        gl::INVALID_FRAMEBUFFER_OPERATION
    }
}

/// Records `error` as pending in `bits`; an enum that is no recordable GL
/// error leaves `bits` as it is.
pub fn record_error(bits: u32, error: u32) -> (r: u32)
    ensures
        r == recorded_bits(bits, error),
{
    match error_to_bit_index(error) {
        Some(bit) => bits | (1u32 << bit),
        None => bits,
    }
}

/// Takes the lowest pending error out of `bits`: `(GL_NO_ERROR, 0)` when
/// nothing is pending, else the error of the lowest set bit and `bits`
/// with that bit cleared.
pub fn take_error(bits: u32) -> (r: (u32, u32))
    requires
        errors_readable(bits),
    ensures
        bits == 0 ==> r == (gl::NO_ERROR, 0u32),
        bits != 0 ==> exists|i: u32|
            #![trigger is_lowest_set_bit(bits, i)]
            {
                &&& is_lowest_set_bit(bits, i)
                &&& i < 7
                &&& r.0 == spec_bit_error(i)
                &&& r.1 == bits & !(1u32 << i)
            },
{
    if bits == 0 {
        return (gl::NO_ERROR, 0);
    }
    let index = bits.trailing_zeros();
    proof {
        vstd::std_specs::bits::axiom_u32_trailing_zeros(bits);
        assert(bits & 0x7fu32 != 0 && (bits >> index) & 1u32 == 1u32 && index < 32
            && (forall|j: u32| j < index ==> #[trigger] ((bits >> j) & 1u32) == 0u32) ==> index < 7)
            by {
            if index >= 7 {
                assert((bits >> 0u32) & 1u32 == 0u32);
                assert((bits >> 1u32) & 1u32 == 0u32);
                assert((bits >> 2u32) & 1u32 == 0u32);
                assert((bits >> 3u32) & 1u32 == 0u32);
                assert((bits >> 4u32) & 1u32 == 0u32);
                assert((bits >> 5u32) & 1u32 == 0u32);
                assert((bits >> 6u32) & 1u32 == 0u32);
                assert(((bits >> 0u32) & 1u32 == 0u32) && ((bits >> 1u32) & 1u32 == 0u32) && (
                (bits >> 2u32) & 1u32 == 0u32) && ((bits >> 3u32) & 1u32 == 0u32) && ((bits
                    >> 4u32) & 1u32 == 0u32) && ((bits >> 5u32) & 1u32 == 0u32) && ((bits >> 6u32)
                    & 1u32 == 0u32) ==> bits & 0x7fu32 == 0u32) by (bit_vector);
            }
        }
        assert(is_lowest_set_bit(bits, index));
    }
    let error = bit_index_to_error(index);
    (error, bits & !(1u32 << index))
}


proof fn lemma_bit_of_or(bits: u32, b: u32, c: u32)
    requires
        b < 32,
        c < 32,
    ensures
        bit_set(bits | (1u32 << c), b) <==> (bit_set(bits, b) || b == c),
{
    assert(((bits | (1u32 << c)) >> b) & 1u32 == 1u32 <==> (((bits >> b) & 1u32 == 1u32) || b
        == c)) by (bit_vector)
        requires
            b < 32,
            c < 32,
    ;
}

proof fn lemma_bit_of_clear(bits: u32, b: u32, c: u32)
    requires
        b < 32,
        c < 32,
    ensures
        bit_set(bits & !(1u32 << c), b) <==> (bit_set(bits, b) && b != c),
{
    assert(((bits & !(1u32 << c)) >> b) & 1u32 == 1u32 <==> (((bits >> b) & 1u32 == 1u32) && b
        != c)) by (bit_vector)
        requires
            b < 32,
            c < 32,
    ;
}

proof fn lemma_error_bit_inverse(e: u32)
    ensures
        spec_error_bit(e) matches Some(b) ==> b < 7 && spec_bit_error(b) == e,
        forall|i: u32| i < 7 ==> spec_error_bit(#[trigger] spec_bit_error(i)) == Some(i),
{
}

/// Recording an error adds exactly that error to the pending ones.  A bitfield below 128
/// (only the seven error bits in use) stays below 128.
pub proof fn lemma_record_error_pending(bits: u32, error: u32)
    ensures
        spec_error_bit(error) is Some ==> pending_errors(recorded_bits(bits, error))
            == pending_errors(bits).insert(error),
        bits < 128 ==> recorded_bits(bits, error) < 128,
{
    lemma_error_bit_inverse(error);
    if let Some(c) = spec_error_bit(error) {
        let nb = bits | (1u32 << c);
        assert forall|e: u32| #[trigger] pending_errors(nb).contains(e) == pending_errors(
            bits,
        ).insert(error).contains(e) by {
            lemma_error_bit_inverse(e);
            if let Some(b) = spec_error_bit(e) {
                lemma_bit_of_or(bits, b, c);
            }
        }
        assert(pending_errors(nb) =~= pending_errors(bits).insert(error));
        assert(bits < 128 && c < 7 ==> bits | (1u32 << c) < 128) by (bit_vector);
    }
}

/// Taking an error from a non-empty readable bitfield yields the pending
/// error with the lowest bit and leaves every other pending error pending.
/// A bitfield below 128 stays below 128.
pub proof fn lemma_take_error_pending(bits: u32, i: u32)
    requires
        bits != 0,
        is_lowest_set_bit(bits, i),
        i < 7,
    ensures
        pending_errors(bits).contains(spec_bit_error(i)),
        forall|e: u32|
            #[trigger] pending_errors(bits).contains(e) ==> (spec_error_bit(e) matches Some(b)
                && i <= b),
        pending_errors(bits & !(1u32 << i)) == pending_errors(bits).remove(spec_bit_error(i)),
        bits < 128 ==> bits & !(1u32 << i) < 128,
{
    lemma_error_bit_inverse(spec_bit_error(i));
    let nb = bits & !(1u32 << i);
    assert forall|e: u32| #[trigger] pending_errors(nb).contains(e) == pending_errors(
        bits,
    ).remove(spec_bit_error(i)).contains(e) by {
        lemma_error_bit_inverse(e);
        if let Some(b) = spec_error_bit(e) {
            lemma_bit_of_clear(bits, b, i);
        }
    }
    assert(pending_errors(nb) =~= pending_errors(bits).remove(spec_bit_error(i)));
    assert forall|e: u32| #[trigger] pending_errors(bits).contains(e) implies (spec_error_bit(
        e,
    ) matches Some(b) && i <= b) by {
        lemma_error_bit_inverse(e);
        let b = spec_error_bit(e)->0;
        if b < i {
            assert(!bit_set(bits, b));
        }
    }
    assert(bits < 128 ==> bits & !(1u32 << i) < 128) by (bit_vector);
}

/// Raising one recordable error on a context with none pending, and then
/// fetching, gives that error back and leaves none pending.
pub proof fn lemma_raise_then_get(error: u32)
    requires
        spec_error_bit(error) is Some,
    ensures
        ({
            let bits = recorded_bits(0u32, error);
            &&& bits != 0
            &&& errors_readable(bits)
            &&& forall|i: u32| #[trigger]
                is_lowest_set_bit(bits, i) ==> spec_bit_error(i) == error && bits & !(1u32 << i)
                    == 0
        }),
{
    lemma_error_bit_inverse(error);
    let b = spec_error_bit(error)->0;
    let bits = 0u32 | (1u32 << b);
    assert(b < 7 ==> (0u32 | (1u32 << b)) != 0 && (0u32 | (1u32 << b)) & 0x7fu32 != 0)
        by (bit_vector);
    assert forall|i: u32| #[trigger] is_lowest_set_bit(bits, i) implies spec_bit_error(i) == error
        && bits & !(1u32 << i) == 0 by {
        assert(b < 7 && i < 32 && ((0u32 | (1u32 << b)) >> i) & 1u32 == 1u32 ==> i == b)
            by (bit_vector);
        assert(b < 7 ==> (0u32 | (1u32 << b)) & !(1u32 << b) == 0) by (bit_vector);
    }
}

/// A bitfield that uses only the seven error bits can always be read.
pub proof fn lemma_small_bits_readable(bits: u32)
    requires
        bits < 128,
    ensures
        errors_readable(bits),
{
    assert(bits < 128 && bits != 0 ==> bits & 0x7fu32 != 0) by (bit_vector);
}

} // verus!
