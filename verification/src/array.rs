use vstd::prelude::*;

use vstd::string::StringExecFns;

verus! {

/// The number of items of an array.
pub fn len<T>(a: &Vec<T>) -> (r: usize)
    ensures
        r == a@.len(),
{
    a.len()
}

/// Appends an item at the end.
pub fn push<T>(a: &mut Vec<T>, item: T)
    ensures
        final(a)@ == old(a)@.push(item),
{
    a.push(item);
}

/// The error for a position past the items.
fn out_of_bounds() -> (r: String)
    ensures
        r@ == "Index out of bounds"@,
{
    String::from_str("Index out of bounds")
}

/// Inserts an item before position `index`; the end is a valid position.
pub fn insert<T>(a: &mut Vec<T>, index: usize, item: T) -> (r: Result<(), String>)
    ensures
        index <= old(a)@.len() ==> r is Ok && final(a)@ == old(a)@.insert(index as int, item),
        index > old(a)@.len() ==> (r matches Err(e) && e@ == "Index out of bounds"@) && final(a)@
            == old(a)@,
{
    if index > a.len() {
        return Err(out_of_bounds());
    }
    a.insert(index, item);
    Ok(())
}

/// Takes the last item out.
pub fn pop<T>(a: &mut Vec<T>) -> (r: Result<T, String>)
    ensures
        old(a)@.len() > 0 ==> r == Ok::<T, String>(old(a)@.last()) && final(a)@
            == old(a)@.drop_last(),
        old(a)@.len() == 0 ==> (r matches Err(e) && e@ == "Expected non-empty array"@) && final(a)@ == old(a)@,
{
    match a.pop() {
        Some(v) => Ok(v),
        None => Err(String::from_str("Expected non-empty array")),
    }
}

/// Takes the item at position `index` out.
pub fn remove<T>(a: &mut Vec<T>, index: usize) -> (r: Result<T, String>)
    ensures
        index < old(a)@.len() ==> r == Ok::<T, String>(old(a)@[index as int]) && final(a)@
            == old(a)@.remove(index as int),
        index >= old(a)@.len() ==> (r matches Err(e) && e@ == "Index out of bounds"@) && final(a)@ == old(a)@,
{
    if index >= a.len() {
        return Err(out_of_bounds());
    }
    Ok(a.remove(index))
}

/// Reverses the order of the items.
pub fn reverse<T>(a: &mut Vec<T>)
    ensures
        final(a)@ == old(a)@.reverse(),
{
    let ghost orig = a@;
    let mut out: Vec<T> = Vec::new();
    while a.len() > 0
        invariant
            orig.len() == a@.len() + out@.len(),
            a@ == orig.take(a@.len() as int),
            forall|k: int| 0 <= k < out@.len() ==> out@[k] == orig[orig.len() - 1 - k],
        decreases a@.len(),
    {
        let ghost n = a@.len();
        let x = a.pop().unwrap();
        assert(x == orig[n - 1]);
        assert(a@ =~= orig.take(n - 1));
        out.push(x);
    }
    *a = out;
    assert(a@ =~= orig.reverse());
}

/// Removes every item.
pub fn clear<T>(a: &mut Vec<T>)
    ensures
        final(a)@.len() == 0,
{
    a.clear();
}

/// Exchanges the items at positions `i` and `j`.
pub fn swap<T>(a: &mut Vec<T>, i: usize, j: usize)
    requires
        i < old(a)@.len(),
        j < old(a)@.len(),
    ensures
        final(a)@ == old(a)@.update(i as int, old(a)@[j as int]).update(j as int, old(a)@[i as int]),
{
    if i == j {
        assert(a@ =~= a@.update(i as int, a@[j as int]).update(j as int, a@[i as int]));
        return;
    }
    let (lo, hi) = if i < j {
        (i, j)
    } else {
        (j, i)
    };
    let ghost orig = a@;
    let x = a.remove(hi);
    let y = a.remove(lo);
    a.insert(lo, x);
    a.insert(hi, y);
    assert(a@ =~= orig.update(i as int, orig[j as int]).update(j as int, orig[i as int]));
}

// ---------------------------------------------------------------------------
// Laws
// ---------------------------------------------------------------------------

/// Popping right after pushing gives back the pushed item and the array as
/// it was.
pub proof fn law_push_pop<T>(s: Seq<T>, x: T)
    ensures
        s.push(x).len() > 0,
        s.push(x).last() == x,
        s.push(x).drop_last() == s,
{
    assert(s.push(x).drop_last() =~= s);
}

/// Removing at the position just inserted at gives back the inserted item
/// and the array as it was.
pub proof fn law_insert_remove<T>(s: Seq<T>, i: int, x: T)
    requires
        0 <= i <= s.len(),
    ensures
        i < s.insert(i, x).len(),
        s.insert(i, x)[i] == x,
        s.insert(i, x).remove(i) == s,
{
    assert(s.insert(i, x).remove(i) =~= s);
}

/// Reversing twice gives back the array.
pub proof fn law_reverse_twice<T>(s: Seq<T>)
    ensures
        s.reverse().reverse() == s,
{
    assert(s.reverse().reverse() =~= s);
}

/// Swapping the same two positions twice gives back the array.
pub proof fn law_swap_twice<T>(s: Seq<T>, i: int, j: int)
    requires
        0 <= i < s.len(),
        0 <= j < s.len(),
    ensures
        ({
            let t = s.update(i, s[j]).update(j, s[i]);
            t.update(i, t[j]).update(j, t[i]) == s
        }),
{
    let t = s.update(i, s[j]).update(j, s[i]);
    assert(t.update(i, t[j]).update(j, t[i]) =~= s);
}

} // verus!
