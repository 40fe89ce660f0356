use vstd::prelude::*;

verus! {

/// `q` occurs in `line` starting at `i`.
pub open spec fn occurs_at(line: Seq<char>, q: Seq<char>, i: int) -> bool {
    0 <= i && i + q.len() <= line.len() && line.subrange(i, i + q.len()) == q
}

/// The first start from `i` on where `q` occurs in `line`.
pub open spec fn first_from(line: Seq<char>, q: Seq<char>, i: int) -> Option<int>
    decreases line.len() + 1 - i,
{
    if i < 0 || i + q.len() > line.len() {
        None
    } else if occurs_at(line, q, i) {
        Some(i)
    } else {
        first_from(line, q, i + 1)
    }
}

/// The last start at or before `j` where `q` occurs in `line`.
pub open spec fn last_upto(line: Seq<char>, q: Seq<char>, j: int) -> Option<int>
    decreases j + 1,
{
    if j < 0 {
        None
    } else if occurs_at(line, q, j) {
        Some(j)
    } else {
        last_upto(line, q, j - 1)
    }
}

/// Whether `q` occurs in `line` starting at `i`.
pub fn matches_at(line: &Vec<char>, q: &Vec<char>, i: usize) -> (r: bool)
    requires
        i + q@.len() <= line@.len(),
    ensures
        r == occurs_at(line@, q@, i as int),
{
    let n = line.len();
    let mut k: usize = 0;
    while k < q.len()
        invariant
            n == line@.len(),
            i + q@.len() <= line@.len(),
            k <= q@.len(),
            forall|m: int| 0 <= m < k ==> line@[i + m] == q@[m],
        decreases q@.len() - k,
    {
        if line[i + k] != q[k] {
            proof {
                assert(line@.subrange(i as int, i + q@.len())[k as int] != q@[k as int]);
            }
            return false;
        }
        k = k + 1;
    }
    proof {
        assert(line@.subrange(i as int, i + q@.len()) =~= q@);
    }
    true
}

/// The first start from `from` on where `q` occurs in `line`.
pub fn find_from(line: &Vec<char>, q: &Vec<char>, from: usize) -> (r: Option<usize>)
    ensures
        r matches Some(i) ==> first_from(line@, q@, from as int) == Some(i as int),
        r is None ==> first_from(line@, q@, from as int) is None,
{
    if q.len() > line.len() {
        proof {
            assert(first_from(line@, q@, from as int) is None);
        }
        return None;
    }
    let n = line.len();
    if q.len() == 0 {
        if from <= n {
            proof {
                assert(line@.subrange(from as int, from as int) =~= q@);
            }
            return Some(from);
        }
        return None;
    }
    let last = n - q.len();
    let mut i = from;
    while i <= last
        invariant
            n == line@.len(),
            last + q@.len() == line@.len(),
            q@.len() >= 1,
            from <= i,
            first_from(line@, q@, from as int) == first_from(line@, q@, i as int),
        decreases last + 1 - i,
    {
        if matches_at(line, q, i) {
            return Some(i);
        }
        i = i + 1;
    }
    None
}

/// The last start at or before `j` where `q` occurs in `line`.
pub fn rfind_upto(line: &Vec<char>, q: &Vec<char>, j: usize) -> (r: Option<usize>)
    ensures
        r matches Some(i) ==> last_upto(line@, q@, j as int) == Some(i as int),
        r is None ==> last_upto(line@, q@, j as int) is None,
{
    let mut i = j;
    loop
        invariant
            i <= j,
            last_upto(line@, q@, j as int) == last_upto(line@, q@, i as int),
        decreases i,
    {
        if q.len() <= line.len() && i <= line.len() - q.len() && matches_at(line, q, i) {
            return Some(i);
        }
        if i == 0 {
            proof {
                assert(last_upto(line@, q@, -1) is None);
            }
            return None;
        }
        i = i - 1;
    }
}

} // verus!
