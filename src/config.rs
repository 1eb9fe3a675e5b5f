use vstd::prelude::*;

verus! {

/// A decimal digit.
pub open spec fn is_decimal_digit(c: char) -> bool {
    '0' <= c && c <= '9'
}

/// The number that a run of decimal digits writes, most significant first.
pub open spec fn digits_value(s: Seq<char>) -> nat
    decreases s.len(),
{
    if s.len() == 0 {
        0
    } else {
        digits_value(s.drop_last()) * 10 + ((s.last() as u32) - ('0' as u32)) as nat
    }
}

/// The text with one leading `+` sign removed, if it has one.
pub open spec fn unsigned_part(s: Seq<char>) -> Seq<char> {
    if s.len() > 0 && s[0] == '+' {
        s.subrange(1, s.len() as int)
    } else {
        s
    }
}

/// The `usize` that a text reads as: an optional `+` followed by one or
/// more decimal digits whose value fits; nothing otherwise.
pub open spec fn usize_of_text(s: Seq<char>) -> Option<usize> {
    let d = unsigned_part(s);
    if d.len() > 0 && (forall|i: int| 0 <= i < d.len() ==> is_decimal_digit(#[trigger] d[i]))
        && digits_value(d) <= usize::MAX {
        Some(digits_value(d) as usize)
    } else {
        None
    }
}

/// The worker count that an override text asks for: a positive number.
pub open spec fn requested_worker_count(s: Seq<char>) -> Option<usize> {
    match usize_of_text(s) {
        Some(n) => if n >= 1 {
            Some(n)
        } else {
            None
        },
        None => None,
    }
}

/// Relies on `<usize as FromStr>::from_str`: an optional `+` sign followed
/// by decimal digits only, and an error when the value does not fit.
#[verifier::external_body]
fn parse_usize(text: &str) -> (r: Option<usize>)
    ensures
        r == usize_of_text(text@),
{
    text.parse::<usize>().ok()
}

/// Relies on `num_cpus::get`: the number of logical CPUs that this process
/// may use, documented to be at least one.
#[verifier::external_body]
fn detected_cpu_count() -> (r: usize)
    ensures
        r >= 1,
{
    num_cpus::get()
}

/// Relies on `rayon::current_num_threads`: the thread count of the pool that
/// the current thread belongs to, else of rayon's global pool. A pool is
/// built with at least one thread.
#[verifier::external_body]
pub(crate) fn pool_thread_count() -> (r: usize)
    ensures
        r >= 1,
{
    rayon::current_num_threads()
}

/// The worker count that an override text asks for, if it asks for a
/// positive one.
pub fn parse_worker_count(text: &str) -> (r: Option<usize>)
    ensures
        r == requested_worker_count(text@),
{
    match parse_usize(text) {
        Some(n) => if n >= 1 {
            Some(n)
        } else {
            None
        },
        None => None,
    }
}

/// The requested worker count when there is one, else the detected one.
pub fn choose_worker_count(requested: Option<usize>, detected: usize) -> (r: usize)
    requires
        detected >= 1,
        requested matches Some(n) ==> n >= 1,
    ensures
        r == (match requested {
            Some(n) => n,
            None => detected,
        }),
        r >= 1,
{
    match requested {
        Some(n) => n,
        None => detected,
    }
}

/// The pool's worker count: what the override text asks for when it names
/// a positive number, else the number of CPUs detected on this machine.
pub fn resolve_worker_count(override_text: Option<&str>) -> (r: usize)
    ensures
        r >= 1,
        override_text matches Some(t) ==> (requested_worker_count(t@) matches Some(n) ==> r == n),
{
    let requested = match override_text {
        Some(t) => parse_worker_count(t),
        None => None,
    };
    choose_worker_count(requested, detected_cpu_count())
}

} // verus!
