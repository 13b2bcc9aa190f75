use vstd::prelude::*;

verus! {

/// The fields of `s` split on `sep` into at most `n` pieces, with the
/// semantics of Rust's `str::splitn`: each of the first `n - 1` occurrences
/// of the separator ends a field, and everything after that is kept verbatim
/// as one final field, embedded separators included. An empty input yields a
/// single empty field; `n == 0` yields no fields at all.
pub open spec fn spec_splitn(s: Seq<char>, n: nat, sep: char) -> Seq<Seq<char>>
    decreases s.len(),
{
    if n == 0 {
        Seq::empty()
    } else if n == 1 || s.len() == 0 {
        seq![s]
    } else if s[0] == sep {
        seq![Seq::<char>::empty()] + spec_splitn(s.subrange(1, s.len() as int), (n - 1) as nat, sep)
    } else {
        let rest = spec_splitn(s.subrange(1, s.len() as int), n, sep);
        seq![seq![s[0]] + rest[0]] + rest.drop_first()
    }
}

/// Splitting into at most `n >= 1` pieces yields between 1 and `n` fields.
pub proof fn lemma_splitn_len(s: Seq<char>, n: nat, sep: char)
    requires
        n >= 1,
    ensures
        1 <= spec_splitn(s, n, sep).len() <= n,
    decreases s.len(),
{
    if n == 1 || s.len() == 0 {
    } else if s[0] == sep {
        lemma_splitn_len(s.subrange(1, s.len() as int), (n - 1) as nat, sep);
    } else {
        lemma_splitn_len(s.subrange(1, s.len() as int), n, sep);
    }
}

/// A string without the separator is one single field.
pub proof fn lemma_splitn_no_sep(s: Seq<char>, n: nat, sep: char)
    requires
        n >= 1,
        forall|i: int| 0 <= i < s.len() ==> s[i] != sep,
    ensures
        spec_splitn(s, n, sep) == seq![s],
    decreases s.len(),
{
    if n == 1 || s.len() == 0 {
    } else {
        let tail = s.subrange(1, s.len() as int);
        lemma_splitn_no_sep(tail, n, sep);
        assert(seq![s[0]] + tail =~= s);
        assert(spec_splitn(s, n, sep) =~~= seq![s]);
    }
}

/// When the first separator stands at index `k` and at least two pieces may
/// still be made, the first field is everything before `k` and the remaining
/// fields split the text after `k` into one piece fewer.
pub proof fn lemma_splitn_first_sep(s: Seq<char>, n: nat, sep: char, k: int)
    requires
        n >= 2,
        0 <= k < s.len(),
        s[k] == sep,
        forall|i: int| 0 <= i < k ==> s[i] != sep,
    ensures
        spec_splitn(s, n, sep) == seq![s.subrange(0, k)] + spec_splitn(
            s.subrange(k + 1, s.len() as int),
            (n - 1) as nat,
            sep,
        ),
    decreases k,
{
    if k == 0 {
        assert(s.subrange(0, 0) =~= Seq::<char>::empty());
        assert(spec_splitn(s, n, sep) =~~= seq![s.subrange(0, 0)] + spec_splitn(
            s.subrange(1, s.len() as int),
            (n - 1) as nat,
            sep,
        ));
    } else {
        let tail = s.subrange(1, s.len() as int);
        assert(tail[k - 1] == sep);
        lemma_splitn_first_sep(tail, n, sep, k - 1);
        let after = spec_splitn(s.subrange(k + 1, s.len() as int), (n - 1) as nat, sep);
        assert(tail.subrange(k, tail.len() as int) =~= s.subrange(k + 1, s.len() as int));
        let rest = spec_splitn(tail, n, sep);
        assert(rest == seq![tail.subrange(0, k - 1)] + after);
        assert(rest[0] == tail.subrange(0, k - 1));
        assert(seq![s[0]] + tail.subrange(0, k - 1) =~= s.subrange(0, k));
        assert(rest.drop_first() =~= after);
        assert(spec_splitn(s, n, sep) =~~= seq![s.subrange(0, k)] + after);
    }
}

/// Splits `s` on `sep` into at most `n` fields, exactly as `str::splitn`
/// does: the remainder after the `n - 1`th separator is the last field,
/// kept verbatim.
pub fn splitn<'a>(s: &'a str, n: usize, sep: char) -> (fields: Vec<&'a str>)
    requires
        1 <= n,
    ensures
        fields@.map_values(|f: &str| f@) == spec_splitn(s@, n as nat, sep),
{
    let len = s.unicode_len();
    let mut fields: Vec<&'a str> = Vec::new();
    let mut start: usize = 0;
    let mut i: usize = 0;
    proof {
        assert(fields@.map_values(|f: &str| f@) =~= Seq::<Seq<char>>::empty());
        assert(s@.subrange(0, len as int) =~= s@);
    }
    while i < len && fields.len() + 1 < n
        invariant
            1 <= n,
            start <= i <= len,
            len == s@.len(),
            fields@.len() + 1 <= n,
            forall|j: int| start <= j < i ==> s@[j] != sep,
            spec_splitn(s@, n as nat, sep) == fields@.map_values(|f: &str| f@) + spec_splitn(
                s@.subrange(start as int, len as int),
                (n - fields@.len()) as nat,
                sep,
            ),
        decreases len - i,
    {
        if s.get_char(i) == sep {
            let field = s.substring_char(start, i);
            let ghost prev = fields@.map_values(|f: &str| f@);
            let ghost tail = s@.subrange(start as int, len as int);
            let ghost m = (n - fields@.len()) as nat;
            fields.push(field);
            proof {
                lemma_splitn_first_sep(tail, m, sep, i - start);
                assert(tail.subrange(0, i - start) =~= s@.subrange(start as int, i as int));
                assert(tail.subrange(i - start + 1, tail.len() as int) =~= s@.subrange(
                    i as int + 1,
                    len as int,
                ));
                assert(field@ == tail.subrange(0, i - start));
                let after = spec_splitn(s@.subrange(i as int + 1, len as int), (m - 1) as nat, sep);
                assert(fields@.map_values(|f: &str| f@) =~= prev.push(field@));
                assert(prev + (seq![field@] + after) =~~= prev.push(field@) + after);
            }
            start = i + 1;
        }
        i = i + 1;
    }
    let last = s.substring_char(start, len);
    let ghost prev = fields@.map_values(|f: &str| f@);
    let ghost tail = s@.subrange(start as int, len as int);
    let ghost m = (n - fields@.len()) as nat;
    proof {
        if i == len {
            lemma_splitn_no_sep(tail, m, sep);
        } else {
            assert(m == 1);
            assert(spec_splitn(tail, m, sep) == seq![tail]);
        }
    }
    fields.push(last);
    proof {
        assert(fields@.map_values(|f: &str| f@) =~= prev.push(last@));
        assert(prev + seq![tail] =~~= prev.push(last@));
    }
    fields
}

} // verus!
