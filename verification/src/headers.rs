//! HTTP headers, kept in the order of their names with each name once.

use vstd::prelude::*;

use crate::text;

verus! {

/// Whether one text stands before another in the order of their characters.
pub open spec fn precedes(a: Seq<char>, b: Seq<char>) -> bool
    decreases a.len(),
{
    if b.len() == 0 {
        false
    } else if a.len() == 0 {
        true
    } else if a[0] != b[0] {
        (a[0] as int) < (b[0] as int)
    } else {
        precedes(a.drop_first(), b.drop_first())
    }
}

/// Whether the names of a list of headers ascend, each one occurring once.
pub open spec fn ascending(list: Seq<(Seq<char>, Seq<char>)>) -> bool {
    forall|i: int, j: int| 0 <= i < j < list.len() ==> precedes(#[trigger] list[i].0, #[trigger] list[j].0)
}

/// A list of headers with one of them set: in the place of the header of that
/// name, or where its name belongs.
pub open spec fn with_header(
    list: Seq<(Seq<char>, Seq<char>)>,
    name: Seq<char>,
    value: Seq<char>,
) -> Seq<(Seq<char>, Seq<char>)>
    decreases list.len(),
{
    if list.len() == 0 {
        seq![(name, value)]
    } else if name == list[0].0 {
        seq![(name, value)] + list.drop_first()
    } else if precedes(name, list[0].0) {
        seq![(name, value)] + list
    } else {
        seq![list[0]] + with_header(list.drop_first(), name, value)
    }
}

/// A list of headers with the headers of another set in it.
pub open spec fn with_headers(
    list: Seq<(Seq<char>, Seq<char>)>,
    more: Seq<(Seq<char>, Seq<char>)>,
) -> Seq<(Seq<char>, Seq<char>)>
    decreases more.len(),
{
    if more.len() == 0 {
        list
    } else {
        with_header(with_headers(list, more.drop_last()), more.last().0, more.last().1)
    }
}

/// The value that a list of headers has for a name.
pub open spec fn header_value(list: Seq<(Seq<char>, Seq<char>)>, name: Seq<char>) -> Option<
    Seq<char>,
>
    decreases list.len(),
{
    if list.len() == 0 {
        None
    } else if list[0].0 == name {
        Some(list[0].1)
    } else {
        header_value(list.drop_first(), name)
    }
}

/// The order of texts is irreflexive.
pub proof fn lemma_precedes_irreflexive(a: Seq<char>)
    ensures
        !precedes(a, a),
    decreases a.len(),
{
    if a.len() > 0 {
        lemma_precedes_irreflexive(a.drop_first());
    }
}

/// The order of texts is transitive.
pub proof fn lemma_precedes_transitive(a: Seq<char>, b: Seq<char>, c: Seq<char>)
    requires
        precedes(a, b),
        precedes(b, c),
    ensures
        precedes(a, c),
    decreases a.len(),
{
    if a.len() > 0 && a[0] == b[0] && b[0] == c[0] {
        lemma_precedes_transitive(a.drop_first(), b.drop_first(), c.drop_first());
    }
}

/// Of two different texts one stands before the other.
pub proof fn lemma_precedes_total(a: Seq<char>, b: Seq<char>)
    ensures
        precedes(a, b) || precedes(b, a) || a == b,
    decreases a.len(),
{
    if a.len() > 0 && b.len() > 0 {
        assert(a[0] != b[0] ==> (a[0] as int) != (b[0] as int));
        if a[0] == b[0] {
            lemma_precedes_total(a.drop_first(), b.drop_first());
            if a.drop_first() == b.drop_first() {
                assert(a =~= seq![a[0]] + a.drop_first());
                assert(b =~= seq![b[0]] + b.drop_first());
            }
        }
    } else {
        assert(a.len() == 0 && b.len() == 0 ==> a =~= b);
    }
}

/// A header that was set is found with its value, and every other header is
/// found with the value that it had.
pub proof fn law_header_is_found(
    list: Seq<(Seq<char>, Seq<char>)>,
    name: Seq<char>,
    value: Seq<char>,
    sought: Seq<char>,
)
    ensures
        header_value(with_header(list, name, value), sought) == if sought == name {
            Some(value)
        } else {
            header_value(list, sought)
        },
    decreases list.len(),
{
    let out = with_header(list, name, value);
    if list.len() == 0 {
        assert(out.drop_first() =~= list);
    } else if name == list[0].0 {
        assert(out.drop_first() =~= list.drop_first());
    } else if precedes(name, list[0].0) {
        assert(out.drop_first() =~= list);
    } else {
        law_header_is_found(list.drop_first(), name, value, sought);
        assert(out.drop_first() =~= with_header(list.drop_first(), name, value));
    }
}

/// Setting one list of headers after another is setting them all in a row.
pub proof fn lemma_with_headers_add(
    list: Seq<(Seq<char>, Seq<char>)>,
    first: Seq<(Seq<char>, Seq<char>)>,
    second: Seq<(Seq<char>, Seq<char>)>,
)
    ensures
        with_headers(with_headers(list, first), second) == with_headers(list, first + second),
    decreases second.len(),
{
    if second.len() == 0 {
        assert(first + second =~= first);
    } else {
        lemma_with_headers_add(list, first, second.drop_last());
        assert((first + second).drop_last() =~= first + second.drop_last());
    }
}

/// The last value that a list of headers has for a name.
pub open spec fn last_value(list: Seq<(Seq<char>, Seq<char>)>, name: Seq<char>) -> Option<
    Seq<char>,
>
    decreases list.len(),
{
    if list.len() == 0 {
        None
    } else if list.last().0 == name {
        Some(list.last().1)
    } else {
        last_value(list.drop_last(), name)
    }
}

/// Of the headers that are set in a row each is found with the last value that
/// was set for it, and no other header is found.
pub proof fn law_last_header_is_found(list: Seq<(Seq<char>, Seq<char>)>, name: Seq<char>)
    ensures
        header_value(with_headers(Seq::empty(), list), name) == last_value(list, name),
        ascending(with_headers(Seq::empty(), list)),
    decreases list.len(),
{
    if list.len() > 0 {
        let front = list.drop_last();
        law_last_header_is_found(front, name);
        let before = with_headers(Seq::empty(), front);
        law_header_is_found(before, list.last().0, list.last().1, name);
        lemma_with_header_ascending(before, list.last().0, list.last().1);
    }
}

/// The order of names is that of their characters: one stands before another
/// where it is its beginning, or has the smaller character at the first place
/// where they differ.
pub proof fn law_order_of_names(a: Seq<char>, b: Seq<char>)
    ensures
        precedes(a, b) <==> exists|n: int|
            #![trigger a.take(n)]
            0 <= n <= a.len() && n < b.len() && a.take(n) == b.take(n) && (n == a.len() || (
            a[n] as int) < (b[n] as int)),
    decreases a.len(),
{
    if b.len() > 0 && a.len() > 0 && a[0] == b[0] {
        let (x, y) = (a.drop_first(), b.drop_first());
        law_order_of_names(x, y);
        if precedes(x, y) {
            let n = choose|n: int|
                #![trigger x.take(n)]
                0 <= n <= x.len() && n < y.len() && x.take(n) == y.take(n) && (n == x.len() || (
                x[n] as int) < (y[n] as int));
            assert(a.take(n + 1) =~= seq![a[0]] + x.take(n));
            assert(b.take(n + 1) =~= seq![b[0]] + y.take(n));
            assert(a.take(n + 1) == b.take(n + 1));
        }
        if exists|n: int|
            #![trigger a.take(n)]
            0 <= n <= a.len() && n < b.len() && a.take(n) == b.take(n) && (n == a.len() || (
            a[n] as int) < (b[n] as int)) {
            let n = choose|n: int|
                #![trigger a.take(n)]
                0 <= n <= a.len() && n < b.len() && a.take(n) == b.take(n) && (n == a.len() || (
                a[n] as int) < (b[n] as int));
            assert(n > 0);
            assert(x.take(n - 1) =~= a.take(n).drop_first());
            assert(y.take(n - 1) =~= b.take(n).drop_first());
            assert(x.take(n - 1) == y.take(n - 1));
        }
    } else {
        assert(a.take(0) =~= b.take(0));
        if exists|n: int|
            #![trigger a.take(n)]
            0 <= n <= a.len() && n < b.len() && a.take(n) == b.take(n) && (n == a.len() || (
            a[n] as int) < (b[n] as int)) {
            let n = choose|n: int|
                #![trigger a.take(n)]
                0 <= n <= a.len() && n < b.len() && a.take(n) == b.take(n) && (n == a.len() || (
                a[n] as int) < (b[n] as int));
            if n > 0 {
                assert(a.take(n)[0] == b.take(n)[0]);
            }
        }
    }
}

fn is_before(a: &Vec<char>, b: &Vec<char>) -> (yes: bool)
    ensures
        yes == precedes(a@, b@),
{
    let mut i: usize = 0;
    assert(a@.skip(0) =~= a@);
    assert(b@.skip(0) =~= b@);
    while i < a.len() && i < b.len() && a[i] == b[i]
        invariant
            i <= a@.len(),
            i <= b@.len(),
            precedes(a@.skip(i as int), b@.skip(i as int)) == precedes(a@, b@),
        decreases a@.len() - i,
    {
        assert(a@.skip(i as int).drop_first() =~= a@.skip(i + 1));
        assert(b@.skip(i as int).drop_first() =~= b@.skip(i + 1));
        i = i + 1;
    }
    if i >= b.len() {
        false
    } else if i >= a.len() {
        true
    } else {
        text::code(a[i]) < text::code(b[i])
    }
}

/// Setting a header keeps the names ascending.
pub proof fn lemma_with_header_ascending(
    list: Seq<(Seq<char>, Seq<char>)>,
    name: Seq<char>,
    value: Seq<char>,
)
    requires
        ascending(list),
    ensures
        ascending(with_header(list, name, value)),
        forall|i: int| 0 <= i < with_header(list, name, value).len() ==> {
            let entry = #[trigger] with_header(list, name, value)[i];
            entry.0 == name || exists|j: int| 0 <= j < list.len() && (#[trigger] list[j]) == entry
        },
    decreases list.len(),
{
    let out = with_header(list, name, value);
    if list.len() == 0 {
    } else if name == list[0].0 {
        assert forall|i: int| 0 <= i < out.len() implies {
            let entry = #[trigger] out[i];
            entry.0 == name || exists|j: int| 0 <= j < list.len() && (#[trigger] list[j]) == entry
        } by {
            if i > 0 {
                assert(out[i] == list[i]);
            }
        }
        assert forall|i: int, j: int| 0 <= i < j < out.len() implies precedes(
            #[trigger] out[i].0,
            #[trigger] out[j].0,
        ) by {
            assert(out[j].0 == list[j].0);
            assert(out[i].0 == list[i].0);
        }
    } else if precedes(name, list[0].0) {
        assert forall|i: int| 0 <= i < out.len() implies {
            let entry = #[trigger] out[i];
            entry.0 == name || exists|j: int| 0 <= j < list.len() && (#[trigger] list[j]) == entry
        } by {
            if i > 0 {
                assert(out[i] == list[i - 1]);
            }
        }
        assert forall|i: int, j: int| 0 <= i < j < out.len() implies precedes(
            #[trigger] out[i].0,
            #[trigger] out[j].0,
        ) by {
            assert(out[j] == list[j - 1]);
            if i == 0 {
                if j > 1 {
                    assert(precedes(list[0].0, list[j - 1].0));
                    lemma_precedes_transitive(name, list[0].0, list[j - 1].0);
                }
            } else {
                assert(out[i] == list[i - 1]);
            }
        }
    } else {
        let rest = list.drop_first();
        assert(ascending(rest)) by {
            assert forall|i: int, j: int| 0 <= i < j < rest.len() implies precedes(
                #[trigger] rest[i].0,
                #[trigger] rest[j].0,
            ) by {
                assert(rest[i] == list[i + 1]);
                assert(rest[j] == list[j + 1]);
            }
        }
        lemma_with_header_ascending(rest, name, value);
        lemma_precedes_total(name, list[0].0);
        let tail = with_header(rest, name, value);
        assert forall|i: int| 0 <= i < out.len() implies {
            let entry = #[trigger] out[i];
            entry.0 == name || exists|j: int| 0 <= j < list.len() && (#[trigger] list[j]) == entry
        } by {
            if i > 0 {
                assert(out[i] == tail[i - 1]);
                if out[i].0 != name {
                    let k = choose|k: int| 0 <= k < rest.len() && (#[trigger] rest[k]) == tail[i - 1];
                    assert(list[k + 1] == rest[k]);
                }
            } else {
                assert(out[0] == list[0]);
            }
        }
        assert forall|i: int, j: int| 0 <= i < j < out.len() implies precedes(
            #[trigger] out[i].0,
            #[trigger] out[j].0,
        ) by {
            assert(out[j] == tail[j - 1]);
            if i > 0 {
                assert(out[i] == tail[i - 1]);
            } else if out[j].0 != name {
                let k = choose|k: int| 0 <= k < rest.len() && (#[trigger] rest[k]) == tail[j - 1];
                assert(list[k + 1] == rest[k]);
            }
        }
    }
}

/// A set of headers.
#[derive(Debug, PartialEq)]
pub struct Headers {
    list: Vec<(String, String)>,
}

/// The name and the value of a header.
pub open spec fn header_view(header: (String, String)) -> (Seq<char>, Seq<char>) {
    (header.0@, header.1@)
}

impl View for Headers {
    type V = Seq<(Seq<char>, Seq<char>)>;

    closed spec fn view(&self) -> Seq<(Seq<char>, Seq<char>)> {
        self.list@.map_values(|header: (String, String)| header_view(header))
    }
}

impl DeepView for Headers {
    type V = Seq<(Seq<char>, Seq<char>)>;

    open spec fn deep_view(&self) -> Seq<(Seq<char>, Seq<char>)> {
        self@
    }
}

impl Headers {
    #[verifier::type_invariant]
    spec fn well_formed(&self) -> bool {
        ascending(self@)
    }

    /// No headers.
    pub fn new() -> (headers: Headers)
        ensures
            headers@ == Seq::<(Seq<char>, Seq<char>)>::empty(),
    {
        let headers = Headers { list: Vec::new() };
        assert(headers@ =~= Seq::<(Seq<char>, Seq<char>)>::empty());
        headers
    }

    /// How many headers there are. Their names ascend.
    pub fn len(&self) -> (n: usize)
        ensures
            n == self@.len(),
            ascending(self@),
    {
        proof {
            use_type_invariant(self);
        }
        self.list.len()
    }

    /// The name and the value of one header.
    pub fn header(&self, i: usize) -> (header: (&str, &str))
        requires
            i < self@.len(),
        ensures
            (header.0@, header.1@) == self@[i as int],
    {
        (self.list[i].0.as_str(), self.list[i].1.as_str())
    }

    /// Sets a header: the one of that name is replaced, or a new one is put
    /// where its name belongs.
    pub fn insert(&mut self, name: String, value: String)
        ensures
            final(self)@ == with_header(old(self)@, name@, value@),
            ascending(final(self)@),
    {
        proof {
            use_type_invariant(&*self);
            lemma_with_header_ascending(self@, name@, value@);
        }
        let ghost before = self@;
        let key = text::chars_of(name.as_str());
        let mut out: Vec<(String, String)> = Vec::new();
        let n = self.list.len();
        let mut i: usize = 0;
        assert(before.skip(0) =~= before);
        while i < n && is_before(&text::chars_of(self.list[i].0.as_str()), &key)
            invariant
                n == self.list@.len(),
                before == self@,
                ascending(before),
                key@ == name@,
                i <= n,
                views(out@) == before.take(i as int),
                before.take(i as int) + with_header(before.skip(i as int), name@, value@)
                    == with_header(before, name@, value@),
            decreases n - i,
        {
            let header = (self.list[i].0.clone(), self.list[i].1.clone());
            let ghost rest = before.skip(i as int);
            proof {
                assert(rest[0] == before[i as int]);
                assert(before[i as int].0 == self.list@[i as int].0@);
                lemma_precedes_irreflexive(name@);
                if precedes(name@, rest[0].0) {
                    lemma_precedes_transitive(name@, rest[0].0, name@);
                }
                assert(rest.drop_first() =~= before.skip(i + 1));
                assert(before.take(i + 1) =~= before.take(i as int).push(before[i as int]));
                assert(before.take(i as int) + (seq![rest[0]] + with_header(
                    rest.drop_first(),
                    name@,
                    value@,
                )) =~= before.take(i + 1) + with_header(before.skip(i + 1), name@, value@));
                assert(views(out@.push(header)) =~= views(out@).push(header_view(header)));
            }
            out.push(header);
            i = i + 1;
        }
        let ghost rest = before.skip(i as int);
        let mut j = i;
        proof {
            if i < n {
                assert(rest[0] == before[i as int]);
                assert(before[i as int].0 == self.list@[i as int].0@);
                lemma_precedes_total(name@, rest[0].0);
            }
        }
        if i < n && text::same(self.list[i].0.as_str(), name.as_str()) {
            j = i + 1;
        }
        let header = (name, value);
        assert(views(out@.push(header)) =~= views(out@).push(header_view(header)));
        out.push(header);
        let ghost start = j as int;
        let ghost front = views(out@);
        assert(front + before.skip(start) =~= with_header(before, name@, value@)) by {
            if i < n && before[i as int].0 == name@ {
                assert(rest.drop_first() =~= before.skip(start));
            } else if i < n {
                assert(with_header(rest, name@, value@) =~= seq![(name@, value@)] + rest);
            } else {
                assert(rest =~= Seq::empty());
                assert(before.skip(start) =~= Seq::empty());
            }
        }
        assert(before.subrange(start, start) =~= Seq::empty());
        while j < n
            invariant
                n == before.len(),
                n == self.list@.len(),
                before == self@,
                0 <= start <= j <= n,
                views(out@) =~= front + before.subrange(start, j as int),
            decreases n - j,
        {
            let header = (self.list[j].0.clone(), self.list[j].1.clone());
            assert(header_view(header) == before[j as int]);
            assert(views(out@.push(header)) =~= views(out@).push(header_view(header)));
            assert(before.subrange(start, j + 1) =~= before.subrange(start, j as int).push(
                before[j as int],
            ));
            out.push(header);
            j = j + 1;
        }
        assert(before.subrange(start, n as int) =~= before.skip(start));
        self.list = out;
    }

    /// Sets every header of another set.
    pub fn extend(&mut self, more: &Headers)
        ensures
            final(self)@ == with_headers(old(self)@, more@),
            ascending(final(self)@),
    {
        proof {
            use_type_invariant(&*self);
        }
        let n = more.len();
        for i in 0..n
            invariant
                n == more@.len(),
                self@ == with_headers(old(self)@, more@.take(i as int)),
                ascending(self@),
        {
            let (name, value) = more.header(i);
            self.insert(name.to_owned(), value.to_owned());
            assert(more@.take(i + 1).drop_last() =~= more@.take(i as int));
        }
        assert(more@.take(more@.len() as int) =~= more@);
    }
}

spec fn views(list: Seq<(String, String)>) -> Seq<(Seq<char>, Seq<char>)> {
    list.map_values(|header: (String, String)| header_view(header))
}

impl Clone for Headers {
    fn clone(&self) -> (copy: Self)
        ensures
            copy@ == self@,
    {
        proof {
            use_type_invariant(self);
        }
        let mut list: Vec<(String, String)> = Vec::new();
        for i in 0..self.list.len()
            invariant
                views(list@) =~= self@.take(i as int),
        {
            let header = (self.list[i].0.clone(), self.list[i].1.clone());
            assert(header_view(header) == self@[i as int]);
            assert(views(list@.push(header)) =~= views(list@).push(header_view(header)));
            list.push(header);
        }
        assert(self@.take(self@.len() as int) =~= self@);
        Headers { list }
    }
}

} // verus!
