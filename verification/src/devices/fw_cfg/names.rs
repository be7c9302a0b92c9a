//! Names of files and their order.
use vstd::prelude::*;

verus! {

/// Length of a file name in the directory, with its terminator.
pub const FILE_NAME_SIZE: usize = 56;

/// Whether `a` comes before `b`, looking from position `i` on: by the first
/// byte in which they differ, the shorter one first.
pub open spec fn bytes_before(a: Seq<u8>, b: Seq<u8>, i: int) -> bool
    decreases b.len() - i,
{
    if i >= b.len() || i < 0 {
        false
    } else if i >= a.len() {
        true
    } else if a[i] != b[i] {
        a[i] < b[i]
    } else {
        bytes_before(a, b, i + 1)
    }
}

/// The order of names: that of their bytes.
pub open spec fn name_before(a: Seq<char>, b: Seq<char>) -> bool {
    bytes_before(vstd::utf8::encode_utf8(a), vstd::utf8::encode_utf8(b), 0)
}

/// The order of names is transitive.
pub proof fn names_are_transitive(a: Seq<char>, b: Seq<char>, c: Seq<char>)
    requires
        name_before(a, b),
        name_before(b, c),
    ensures
        name_before(a, c),
{
    lemma_transitive(
        vstd::utf8::encode_utf8(a),
        vstd::utf8::encode_utf8(b),
        vstd::utf8::encode_utf8(c),
        0,
    );
}

proof fn lemma_transitive(a: Seq<u8>, b: Seq<u8>, c: Seq<u8>, i: int)
    requires
        bytes_before(a, b, i),
        bytes_before(b, c, i),
    ensures
        bytes_before(a, c, i),
    decreases c.len() - i,
{
    if i < a.len() && a[i] == b[i] && b[i] == c[i] {
        lemma_transitive(a, b, c, i + 1);
    }
}

/// No name comes before itself, and of two names one comes first unless they
/// are the same.
pub proof fn names_are_ordered(a: Seq<char>, b: Seq<char>)
    ensures
        !name_before(a, a),
        !(name_before(a, b) && name_before(b, a)),
        name_before(a, b) || name_before(b, a) || a == b,
{
    let x = vstd::utf8::encode_utf8(a);
    let y = vstd::utf8::encode_utf8(b);
    lemma_irreflexive(x, 0);
    if name_before(a, b) && name_before(b, a) {
        lemma_transitive(x, y, x, 0);
    }
    if !name_before(a, b) && !name_before(b, a) {
        lemma_total(x, y, 0);
        vstd::utf8::encode_utf8_decode_utf8(a);
        vstd::utf8::encode_utf8_decode_utf8(b);
    }
}

proof fn lemma_irreflexive(a: Seq<u8>, i: int)
    ensures
        !bytes_before(a, a, i),
    decreases a.len() - i,
{
    if 0 <= i < a.len() {
        lemma_irreflexive(a, i + 1);
    }
}

proof fn lemma_total(a: Seq<u8>, b: Seq<u8>, i: int)
    requires
        0 <= i <= a.len(),
        i <= b.len(),
        forall|k: int| 0 <= k < i ==> a[k] == b[k],
        !bytes_before(a, b, i),
        !bytes_before(b, a, i),
    ensures
        a == b,
    decreases a.len() - i,
{
    if i < a.len() && i < b.len() {
        lemma_total(a, b, i + 1);
    } else {
        assert(a =~= b);
    }
}

/// Compares two names.
pub fn is_name_before(a: &str, b: &str) -> (r: bool)
    ensures
        r == name_before(a@, b@),
{
    let x: &[u8] = a.as_bytes();
    let y: &[u8] = b.as_bytes();
    let mut i: usize = 0;
    while i < y.len()
        invariant
            i <= y@.len(),
            x@ == vstd::utf8::encode_utf8(a@),
            y@ == vstd::utf8::encode_utf8(b@),
            name_before(a@, b@) == bytes_before(x@, y@, i as int),
        decreases y@.len() - i,
    {
        if i >= x.len() {
            return true;
        }
        if x[i] != y[i] {
            return x[i] < y[i];
        }
        i = i + 1;
    }
    false
}

/// A name in the directory: cut off to leave room for a terminator, and filled
/// up with zeros.
pub open spec fn file_name(name: Seq<char>) -> Seq<u8> {
    let b = vstd::utf8::encode_utf8(name);
    Seq::new(
        56,
        |i: int|
            if i < 55 && i < b.len() {
                b[i]
            } else {
                0u8
            },
    )
}

/// Makes a name for the directory.
pub fn create_file_name(name: &str) -> (r: [u8; 56])
    ensures
        r@ == file_name(name@),
{
    let mut c_name: [u8; 56] = [0u8;56];
    let b: &[u8] = name.as_bytes();
    let mut i: usize = 0;
    while i < b.len() && i < FILE_NAME_SIZE - 1
        invariant
            i <= 55,
            i <= b@.len(),
            b@ == vstd::utf8::encode_utf8(name@),
            forall|k: int| 0 <= k < i ==> c_name@[k] == b@[k],
            forall|k: int| i <= k < 56 ==> c_name@[k] == 0,
        decreases 55 - i,
    {
        c_name[i] = b[i];
        i = i + 1;
    }
    assert(c_name@ =~= file_name(name@));
    c_name
}

/// A name in the directory always ends with a zero.
pub proof fn file_names_are_terminated(name: Seq<char>)
    ensures
        file_name(name).len() == FILE_NAME_SIZE,
        file_name(name)[55] == 0,
{
}

/// Of two names the one that is lower in the first byte in which they differ
/// comes first, and one that the other begins with comes before it.
pub proof fn first_difference_decides(a: Seq<u8>, b: Seq<u8>, k: int)
    requires
        0 <= k <= a.len(),
        k <= b.len(),
        forall|i: int| 0 <= i < k ==> a[i] == b[i],
    ensures
        k < a.len() && k < b.len() && a[k] != b[k] ==> (bytes_before(a, b, 0) <==> a[k] < b[k]),
        k == a.len() && k < b.len() ==> bytes_before(a, b, 0),
        k == b.len() ==> !bytes_before(a, b, 0),
{
    lemma_same_start(a, b, k, 0);
}

proof fn lemma_same_start(a: Seq<u8>, b: Seq<u8>, k: int, i: int)
    requires
        0 <= i <= k <= a.len(),
        k <= b.len(),
        forall|j: int| 0 <= j < k ==> a[j] == b[j],
    ensures
        bytes_before(a, b, i) == bytes_before(a, b, k),
    decreases k - i,
{
    if i < k {
        lemma_same_start(a, b, k, i + 1);
    }
}

/// A name that is short enough is in the directory as it is, and a longer one by
/// its first 55 bytes; zeros follow.
pub proof fn file_name_holds_the_name(name: Seq<char>, i: int)
    requires
        0 <= i < 56,
    ensures
        ({
            let b = vstd::utf8::encode_utf8(name);
            &&& i < 55 && i < b.len() ==> file_name(name)[i] == b[i]
            &&& i == 55 || i >= b.len() ==> file_name(name)[i] == 0
        }),
{
}

} // verus!
