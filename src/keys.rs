use vstd::prelude::*;

verus! {

/// Linux input key code of the Tab key.
pub const KEY_TAB: i32 = 15;

/// Linux input key code of the right Control key.
pub const KEY_RIGHT_CTRL: i32 = 97;

/// Linux input key code of the right Alt key.
pub const KEY_RIGHT_ALT: i32 = 100;

/// Two key lists hold the same keys, whatever their order or repetitions.
pub open spec fn same_key_set(a: Seq<i32>, b: Seq<i32>) -> bool {
    a.to_set() == b.to_set()
}

pub fn contains_key(keys: &Vec<i32>, key: i32) -> (r: bool)
    ensures
        r == keys@.contains(key),
{
    let mut i: usize = 0;
    while i < keys.len()
        invariant
            0 <= i <= keys@.len(),
            forall|j: int| 0 <= j < i ==> keys@[j] != key,
        decreases keys@.len() - i,
    {
        if keys[i] == key {
            return true;
        }
        i = i + 1;
    }
    false
}

/// Every key of `a` is in `b`.
fn all_keys_in(a: &Vec<i32>, b: &Vec<i32>) -> (r: bool)
    ensures
        r == (forall|k: i32| a@.contains(k) ==> b@.contains(k)),
{
    let mut i: usize = 0;
    while i < a.len()
        invariant
            0 <= i <= a@.len(),
            forall|j: int| 0 <= j < i ==> b@.contains(#[trigger] a@[j]),
        decreases a@.len() - i,
    {
        if !contains_key(b, a[i]) {
            assert(a@.contains(a@[i as int]));
            return false;
        }
        i = i + 1;
    }
    true
}

pub fn same_keys(a: &Vec<i32>, b: &Vec<i32>) -> (r: bool)
    ensures
        r == same_key_set(a@, b@),
{
    let r = all_keys_in(a, b) && all_keys_in(b, a);
    proof {
        if r {
            assert(a@.to_set() =~= b@.to_set());
        } else if a@.to_set() == b@.to_set() {
            assert forall|k: i32| a@.contains(k) implies b@.contains(k) by {
                assert(a@.to_set().contains(k));
            }
            assert forall|k: i32| b@.contains(k) implies a@.contains(k) by {
                assert(b@.to_set().contains(k));
            }
        }
    }
    r
}

} // verus!
