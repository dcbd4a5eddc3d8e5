//! Shared text-assembly specifications and helpers: separator joins,
//! decimal rendering of positional indices, and rendering a list of
//! items where each item may fail.

use vstd::prelude::*;
use vstd::string::StringExecFns;

use crate::GenError;

verus! {

/// The parts joined with `sep` between neighbours and nothing around them.
pub open spec fn sep_join(parts: Seq<Seq<char>>, sep: Seq<char>) -> Seq<char>
    decreases parts.len(),
{
    if parts.len() == 0 {
        Seq::empty()
    } else if parts.len() == 1 {
        parts[0]
    } else {
        sep_join(parts.drop_last(), sep) + sep + parts.last()
    }
}

pub proof fn lemma_sep_join_push(parts: Seq<Seq<char>>, p: Seq<char>, sep: Seq<char>)
    ensures
        sep_join(parts.push(p), sep) == if parts.len() == 0 {
            p
        } else {
            sep_join(parts, sep) + sep + p
        },
{
    assert(parts.push(p).drop_last() =~~= parts);
    assert(parts.push(p).last() == p);
    if parts.len() == 0 {
        assert(parts.push(p)[0] == p);
    }
}

/// The text of a rendering result, errors untouched.
pub open spec fn res_view(r: Result<String, GenError>) -> Result<Seq<char>, GenError> {
    match r {
        Result::Ok(s) => Result::Ok(s@),
        Result::Err(e) => Result::Err(e),
    }
}

/// Positional fragments: part `i` becomes `pre + i + mid + part`.
pub open spec fn numbered(parts: Seq<Seq<char>>, pre: Seq<char>, mid: Seq<char>) -> Seq<
    Seq<char>,
> {
    Seq::new(parts.len(), |i: int| pre + dec_of(i as nat) + mid + parts[i])
}

pub proof fn lemma_numbered_push(
    parts: Seq<Seq<char>>,
    p: Seq<char>,
    pre: Seq<char>,
    mid: Seq<char>,
)
    ensures
        numbered(parts.push(p), pre, mid) == numbered(parts, pre, mid).push(
            pre + dec_of(parts.len()) + mid + p,
        ),
{
    assert(numbered(parts.push(p), pre, mid) =~~= numbered(parts, pre, mid).push(
        pre + dec_of(parts.len()) + mid + p,
    ));
}

/// Positional fragments with the index after the part: `part + mid + i`.
pub open spec fn numbered_after(parts: Seq<Seq<char>>, mid: Seq<char>) -> Seq<Seq<char>> {
    Seq::new(parts.len(), |i: int| parts[i] + mid + dec_of(i as nat))
}

pub proof fn lemma_numbered_after_push(parts: Seq<Seq<char>>, p: Seq<char>, mid: Seq<char>)
    ensures
        numbered_after(parts.push(p), mid) == numbered_after(parts, mid).push(
            p + mid + dec_of(parts.len()),
        ),
{
    assert(numbered_after(parts.push(p), mid) =~~= numbered_after(parts, mid).push(
        p + mid + dec_of(parts.len()),
    ));
}

/// The texts of the elements, one each, in order, for renderings that
/// cannot fail.
pub open spec fn texts_of<T>(f: spec_fn(T) -> Seq<char>, elems: Seq<T>) -> Seq<Seq<char>> {
    elems.map_values(f)
}

pub proof fn lemma_texts_take_push<T>(f: spec_fn(T) -> Seq<char>, elems: Seq<T>, k: int)
    requires
        0 <= k < elems.len(),
    ensures
        texts_of(f, elems.take(k + 1)) == texts_of(f, elems.take(k)).push(f(elems[k])),
{
    assert(texts_of(f, elems.take(k + 1)) =~~= texts_of(f, elems.take(k)).push(f(elems[k])));
}

/// The character for one decimal digit.
pub open spec fn dec_digit(n: nat) -> char {
    if n == 0 {
        '0'
    } else if n == 1 {
        '1'
    } else if n == 2 {
        '2'
    } else if n == 3 {
        '3'
    } else if n == 4 {
        '4'
    } else if n == 5 {
        '5'
    } else if n == 6 {
        '6'
    } else if n == 7 {
        '7'
    } else if n == 8 {
        '8'
    } else {
        '9'
    }
}

/// The usual decimal rendering of `n`, most significant digit first,
/// without leading zeros (except for `n == 0` itself).
pub open spec fn dec_of(n: nat) -> Seq<char>
    decreases n,
{
    if n < 10 {
        seq![dec_digit(n)]
    } else {
        dec_of(n / 10) + seq![dec_digit(n % 10)]
    }
}

/// Appends the decimal rendering of `n` to `out`.
pub fn push_dec(out: &mut String, n: usize)
    ensures
        final(out)@ == old(out)@ + dec_of(n as nat),
    decreases n,
{
    if n >= 10 {
        push_dec(out, n / 10);
    }
    let r: usize = n % 10;
    let d: &str = if r == 0 {
        "0"
    } else if r == 1 {
        "1"
    } else if r == 2 {
        "2"
    } else if r == 3 {
        "3"
    } else if r == 4 {
        "4"
    } else if r == 5 {
        "5"
    } else if r == 6 {
        "6"
    } else if r == 7 {
        "7"
    } else if r == 8 {
        "8"
    } else {
        "9"
    };
    proof {
        reveal_strlit("0");
        reveal_strlit("1");
        reveal_strlit("2");
        reveal_strlit("3");
        reveal_strlit("4");
        reveal_strlit("5");
        reveal_strlit("6");
        reveal_strlit("7");
        reveal_strlit("8");
        reveal_strlit("9");
        assert(d@ =~= seq![dec_digit((n % 10) as nat)]);
    }
    out.append(d);
    proof {
        if n < 10 {
            assert(out@ =~= old(out)@ + dec_of(n as nat));
        } else {
            assert(out@ =~= old(out)@ + dec_of(n as nat));
        }
    }
}

/// Renders every element of `elems` through `f`, left to right, stopping
/// at the first element that `f` refuses.
pub open spec fn render_all<T>(
    f: spec_fn(T) -> Result<Seq<char>, GenError>,
    elems: Seq<T>,
) -> Result<Seq<Seq<char>>, GenError>
    decreases elems.len(),
{
    if elems.len() == 0 {
        Result::Ok(Seq::empty())
    } else {
        match render_all(f, elems.drop_last()) {
            Result::Err(e) => Result::Err(e),
            Result::Ok(parts) => match f(elems.last()) {
                Result::Err(e) => Result::Err(e),
                Result::Ok(t) => Result::Ok(parts.push(t)),
            },
        }
    }
}

/// The rendered parts are one per element, in the order of the elements.
pub proof fn lemma_render_all_ok<T>(
    f: spec_fn(T) -> Result<Seq<char>, GenError>,
    elems: Seq<T>,
)
    requires
        render_all(f, elems) is Ok,
    ensures
        render_all(f, elems)->Ok_0.len() == elems.len(),
        forall|i: int|
            0 <= i < elems.len() ==> f(elems[i]) == Result::<Seq<char>, GenError>::Ok(
                #[trigger] render_all(f, elems)->Ok_0[i],
            ),
    decreases elems.len(),
{
    if elems.len() > 0 {
        lemma_render_all_ok(f, elems.drop_last());
        let prefix = render_all(f, elems.drop_last())->Ok_0;
        let whole = render_all(f, elems)->Ok_0;
        assert(whole == prefix.push(f(elems.last())->Ok_0));
        assert forall|i: int| 0 <= i < elems.len() implies f(elems[i])
            == Result::<Seq<char>, GenError>::Ok(#[trigger] whole[i]) by {
            if i < elems.len() - 1 {
                assert(elems.drop_last()[i] == elems[i]);
                assert(whole[i] == prefix[i]);
            } else {
                assert(elems[i] == elems.last());
            }
        }
    }
}

/// Rendering the whole list fails exactly when rendering some element
/// fails, and then with the error of the leftmost such element.
pub proof fn lemma_render_all_err<T>(
    f: spec_fn(T) -> Result<Seq<char>, GenError>,
    elems: Seq<T>,
)
    ensures
        (render_all(f, elems) is Err) <==> (exists|i: int|
            0 <= i < elems.len() && (#[trigger] f(elems[i])) is Err),
        (render_all(f, elems) is Err) ==> exists|i: int|
            0 <= i < elems.len() && (#[trigger] f(elems[i])) is Err
                && render_all(f, elems) == Result::<Seq<Seq<char>>, GenError>::Err(
                f(elems[i])->Err_0,
            ) && (forall|j: int| 0 <= j < i ==> f(elems[j]) is Ok),
    decreases elems.len(),
{
    if elems.len() > 0 {
        lemma_render_all_err(f, elems.drop_last());
        assert(forall|i: int|
            0 <= i < elems.len() - 1 ==> elems.drop_last()[i] == #[trigger] elems[i]);
        if render_all(f, elems.drop_last()) is Err {
            let i = choose|i: int|
                0 <= i < elems.drop_last().len() && (#[trigger] f(elems.drop_last()[i])) is Err
                    && render_all(f, elems.drop_last()) == Result::<Seq<Seq<char>>, GenError>::Err(
                    f(elems.drop_last()[i])->Err_0,
                ) && (forall|j: int| 0 <= j < i ==> f(elems.drop_last()[j]) is Ok);
            assert(f(elems[i]) is Err);
            assert(render_all(f, elems) == Result::<Seq<Seq<char>>, GenError>::Err(
                f(elems[i])->Err_0,
            ));
        } else if f(elems.last()) is Err {
            let i = elems.len() - 1;
            assert(f(elems[i]) is Err);
            assert(forall|j: int| 0 <= j < i ==> f(elems[j]) is Ok);
        }
    }
}

/// If the elements up to `k` render and element `k` does not, the list
/// fails with exactly that element's error.
pub proof fn lemma_render_all_err_at<T>(
    f: spec_fn(T) -> Result<Seq<char>, GenError>,
    elems: Seq<T>,
    k: int,
)
    requires
        0 <= k < elems.len(),
        render_all(f, elems.take(k)) is Ok,
        f(elems[k]) is Err,
    ensures
        render_all(f, elems) == Result::<Seq<Seq<char>>, GenError>::Err(f(elems[k])->Err_0),
{
    lemma_render_all_ok(f, elems.take(k));
    assert forall|j: int| 0 <= j < k implies (#[trigger] f(elems[j])) is Ok by {
        assert(elems.take(k)[j] == elems[j]);
        assert(f(elems.take(k)[j]) == Result::<Seq<char>, GenError>::Ok(
            render_all(f, elems.take(k))->Ok_0[j],
        ));
    }
    lemma_render_all_err(f, elems);
    let i = choose|i: int|
        0 <= i < elems.len() && (#[trigger] f(elems[i])) is Err && render_all(f, elems)
            == Result::<Seq<Seq<char>>, GenError>::Err(f(elems[i])->Err_0) && (forall|j: int|
            0 <= j < i ==> f(elems[j]) is Ok);
    assert(i == k);
}

/// Rendering a prefix extended by one more element that renders.
pub proof fn lemma_render_all_snoc<T>(
    f: spec_fn(T) -> Result<Seq<char>, GenError>,
    elems: Seq<T>,
    k: int,
)
    requires
        0 <= k < elems.len(),
        render_all(f, elems.take(k)) is Ok,
        f(elems[k]) is Ok,
    ensures
        render_all(f, elems.take(k + 1)) == Result::<Seq<Seq<char>>, GenError>::Ok(
            render_all(f, elems.take(k))->Ok_0.push(f(elems[k])->Ok_0),
        ),
{
    assert(elems.take(k + 1).drop_last() =~~= elems.take(k));
    assert(elems.take(k + 1).last() == elems[k]);
}

} // verus!
