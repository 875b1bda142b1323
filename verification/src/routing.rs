//! From a method and a path to what is asked for.

use vstd::prelude::*;
use vstd::string::*;

use crate::text;

verus! {

/// A request method, as far as the ledger tells methods apart.
#[derive(Debug, Clone, Copy, PartialEq, Eq, Structural)]
pub enum Method {
    Get,
    Post,
    Patch,
    Delete,
    Other,
}

/// What a request asks for.
#[derive(Debug, Clone, Copy, PartialEq, Eq, Structural)]
pub enum Route {
    CreateCurrency,
    ListCurrencies,
    CreateAccount,
    ListAccounts,
    DeleteAccount,
    CreateCategory,
    ListCategories,
    DeleteCategory,
    CreateTransactionsBatch,
    CreateTransaction,
    ListTransactions,
    PatchTransaction,
    DeleteTransaction,
    NotFound,
}

/// What a request asks for, and of which row. Where the route names no row, the id is empty.
#[derive(Debug)]
pub struct Target {
    pub route: Route,
    pub id: String,
}

/// The part of a URL before its first `?`.
pub open spec fn before_query(url: Seq<char>) -> Seq<char>
    decreases url.len(),
{
    if url.len() == 0 || url[0] == '?' {
        Seq::empty()
    } else {
        seq![url[0]] + before_query(url.skip(1))
    }
}

proof fn lemma_before_query(url: Seq<char>, end: int)
    requires
        0 <= end <= url.len(),
        end < url.len() ==> url[end] == '?',
        forall|k: int| 0 <= k < end ==> url[k] != '?',
    ensures
        before_query(url) == url.take(end),
    decreases end,
{
    if end == 0 {
        assert(url.take(0) =~= Seq::<char>::empty());
    } else {
        let rest = url.skip(1);
        assert forall|k: int| 0 <= k < end - 1 implies rest[k] != '?' by {
            assert(rest[k] == url[k + 1]);
        }
        lemma_before_query(rest, end - 1);
        assert(seq![url[0]] + rest.take(end - 1) =~= url.take(end));
    }
}

/// The path of a URL: what stands before the query.
pub fn path_of(url: &str) -> (path: String)
    ensures
        path@ == before_query(url@),
{
    let chars: Vec<char> = text::characters(url);
    let mut end: usize = 0;
    while end < chars.len() && chars[end] != '?'
        invariant
            chars@ == url@,
            end <= chars@.len(),
            forall|k: int| 0 <= k < end ==> url@[k] != '?',
        decreases chars@.len() - end,
    {
        end = end + 1;
    }
    proof {
        lemma_before_query(url@, end as int);
    }
    let path: String = text::text_between(&chars, 0, end);
    assert(path@ =~= url@.take(end as int));
    path
}

/// The pieces of a path between its slashes, empty ones among them.
pub open spec fn pieces(path: Seq<char>) -> Seq<Seq<char>>
    decreases path.len(),
{
    if path.len() == 0 {
        seq![Seq::empty()]
    } else {
        let before = pieces(path.drop_last());
        if path.last() == '/' {
            before.push(Seq::empty())
        } else {
            before.drop_last().push(before.last().push(path.last()))
        }
    }
}

/// Holds of a piece that is not empty.
pub open spec fn non_empty() -> spec_fn(Seq<char>) -> bool {
    |piece: Seq<char>| piece.len() > 0
}

/// The segments of a path: the pieces between its slashes that are not empty.
pub open spec fn segments(path: Seq<char>) -> Seq<Seq<char>> {
    pieces(path).filter(non_empty())
}

/// The characters of each text.
pub open spec fn texts(list: Seq<String>) -> Seq<Seq<char>> {
    list.map_values(|text: String| text@)
}

proof fn lemma_pieces(path: Seq<char>)
    ensures
        pieces(path).len() > 0,
        forall|i: int| 0 <= i < pieces(path).len() ==> !(#[trigger] pieces(path)[i]).contains('/'),
    decreases path.len(),
{
    if path.len() > 0 {
        let before = pieces(path.drop_last());
        lemma_pieces(path.drop_last());
        assert forall|i: int| 0 <= i < pieces(path).len() implies !(#[trigger] pieces(
            path,
        )[i]).contains('/') by {
            if path.last() == '/' {
                if i < before.len() {
                    assert(pieces(path)[i] == before[i]);
                } else {
                    assert(pieces(path)[i].len() == 0);
                }
            } else if i < before.len() - 1 {
                assert(pieces(path)[i] == before[i]);
            } else {
                let piece = pieces(path)[i];
                assert(piece == before.last().push(path.last()));
                assert(!before.last().contains('/'));
                if piece.contains('/') {
                    let k = choose|k: int| 0 <= k < piece.len() && piece[k] == '/';
                    assert(k < before.last().len());
                    assert(before.last()[k] == '/');
                }
            }
        }
    }
}

/// Takes a path apart at its slashes.
pub fn path_segments(path: &str) -> (list: Vec<String>)
    ensures
        texts(list@) == segments(path@),
{
    let chars: Vec<char> = text::characters(path);
    let mut list: Vec<String> = Vec::new();
    let mut start: usize = 0;
    let mut i: usize = 0;
    assert(path@.take(0) =~= Seq::<char>::empty());
    assert(pieces(path@.take(0)).drop_last() =~= Seq::<Seq<char>>::empty());
    assert(texts(list@) =~= Seq::<Seq<char>>::empty());
    while i < chars.len()
        invariant
            chars@ == path@,
            start <= i <= chars@.len(),
            pieces(path@.take(i as int)).len() > 0,
            pieces(path@.take(i as int)).last() =~= path@.subrange(start as int, i as int),
            texts(list@) == pieces(path@.take(i as int)).drop_last().filter(non_empty()),
        decreases chars@.len() - i,
    {
        let ghost before = pieces(path@.take(i as int));
        let ghost after = pieces(path@.take(i + 1));
        assert(path@.take(i + 1).drop_last() =~= path@.take(i as int));
        assert(path@.take(i + 1).last() == path@[i as int]);
        if chars[i] == '/' {
            let ghost old_list = list@;
            if start < i {
                list.push(text::text_between(&chars, start, i));
                assert(texts(list@) =~= texts(old_list).push(before.last()));
            }
            assert(after.drop_last() =~= before);
            assert(before.filter(non_empty()) == texts(list@)) by {
                reveal(Seq::filter);
            }
            start = i + 1;
        } else {
            assert(after.drop_last() =~= before.drop_last());
            assert(after.last() =~= path@.subrange(start as int, i + 1));
        }
        i = i + 1;
    }
    assert(path@.take(path@.len() as int) =~= path@);
    let ghost old_list = list@;
    if start < chars.len() {
        list.push(text::text_between(&chars, start, chars.len()));
        assert(texts(list@) =~= texts(old_list).push(pieces(path@).last()));
    }
    assert(pieces(path@).filter(non_empty()) == texts(list@)) by {
        reveal(Seq::filter);
    }
    list
}

proof fn lemma_pieces_of_two(left: Seq<char>, right: Seq<char>)
    ensures
        pieces(left + seq!['/'] + right) == pieces(left) + pieces(right),
    decreases right.len(),
{
    let whole = left + seq!['/'] + right;
    if right.len() == 0 {
        assert(whole.drop_last() =~= left);
        assert(pieces(whole) =~= pieces(left) + pieces(right));
    } else {
        lemma_pieces_of_two(left, right.drop_last());
        lemma_pieces(right.drop_last());
        assert(whole.drop_last() =~= left + seq!['/'] + right.drop_last());
        assert(whole.last() == right.last());
        assert(pieces(whole) =~= pieces(left) + pieces(right));
    }
}

/// A slash only parts what stands before it from what stands after it. So slashes at either end of
/// a path, and doubled ones inside it, make no difference.
pub proof fn law_slash_separates(left: Seq<char>, right: Seq<char>)
    ensures
        segments(left + seq!['/'] + right) == segments(left) + segments(right),
{
    lemma_pieces_of_two(left, right);
    Seq::filter_distributes_over_add(pieces(left), pieces(right), non_empty());
}

/// No segment is empty, and none holds a slash.
pub proof fn law_segments_are_names(path: Seq<char>, i: int)
    requires
        0 <= i < segments(path).len(),
    ensures
        segments(path)[i].len() > 0,
        !segments(path)[i].contains('/'),
{
    lemma_pieces(path);
    pieces(path).lemma_filter_pred(non_empty(), i);
    pieces(path).lemma_filter_contains_rev(non_empty(), segments(path)[i]);
}

/// A name without a slash is its own only segment.
pub proof fn law_name_is_its_own_segment(name: Seq<char>)
    requires
        name.len() > 0,
        !name.contains('/'),
    ensures
        segments(name) == seq![name],
{
    lemma_single_piece(name);
    reveal(Seq::filter);
    assert(seq![name].drop_last() =~= Seq::<Seq<char>>::empty());
    assert(seq![name].drop_last().filter(non_empty()) =~= Seq::<Seq<char>>::empty());
    assert(segments(name) =~= seq![name]);
}

proof fn lemma_single_piece(name: Seq<char>)
    requires
        !name.contains('/'),
    ensures
        pieces(name) == seq![name],
    decreases name.len(),
{
    if name.len() > 0 {
        let before = name.drop_last();
        assert forall|k: int| 0 <= k < before.len() implies before[k] != '/' by {
            assert(name[k] == before[k]);
        }
        lemma_single_piece(before);
        assert(name[name.len() - 1] != '/');
        assert(before.push(name.last()) =~= name);
        assert(pieces(name) =~= seq![name]);
    } else {
        assert(name =~= Seq::<char>::empty());
    }
}

/// What a method and the segments of a path ask for.
pub open spec fn route_of(method: Method, path: Seq<Seq<char>>) -> Route {
    if path.len() == 1 && path[0] == "currencies"@ {
        match method {
            Method::Post => Route::CreateCurrency,
            Method::Get => Route::ListCurrencies,
            _ => Route::NotFound,
        }
    } else if path.len() == 1 && path[0] == "accounts"@ {
        match method {
            Method::Post => Route::CreateAccount,
            Method::Get => Route::ListAccounts,
            _ => Route::NotFound,
        }
    } else if path.len() == 1 && path[0] == "categories"@ {
        match method {
            Method::Post => Route::CreateCategory,
            Method::Get => Route::ListCategories,
            _ => Route::NotFound,
        }
    } else if path.len() == 1 && path[0] == "transactions"@ {
        match method {
            Method::Post => Route::CreateTransaction,
            Method::Get => Route::ListTransactions,
            _ => Route::NotFound,
        }
    } else if path.len() == 2 && path[0] == "accounts"@ && method is Delete {
        Route::DeleteAccount
    } else if path.len() == 2 && path[0] == "categories"@ && method is Delete {
        Route::DeleteCategory
    } else if path.len() == 2 && path[0] == "transactions"@ && method is Patch {
        Route::PatchTransaction
    } else if path.len() == 2 && path[0] == "transactions"@ && method is Delete {
        Route::DeleteTransaction
    } else if path.len() == 2 && path[0] == "transactions"@ && path[1] == "batch"@
        && method is Post {
        Route::CreateTransactionsBatch
    } else {
        Route::NotFound
    }
}

/// Whether a route names a row.
pub open spec fn names_row(route: Route) -> bool {
    route is DeleteAccount || route is DeleteCategory || route is PatchTransaction
        || route is DeleteTransaction
}

/// The id that a path names, empty where the route names no row.
pub open spec fn id_of(route: Route, path: Seq<Seq<char>>) -> Seq<char> {
    if names_row(route) { path[1] } else { Seq::empty() }
}

/// Matches a method and a path against the known resources.
pub fn route(method: Method, path: &str) -> (target: Target)
    ensures
        target.route == route_of(method, segments(path@)),
        target.id@ == id_of(target.route, segments(path@)),
{
    let list: Vec<String> = path_segments(path);
    let ghost names = segments(path@);
    assert(list@.len() == names.len());
    assert(forall|i: int| 0 <= i < list@.len() ==> (#[trigger] list@[i])@ == texts(list@)[i]);
    let mut route: Route = Route::NotFound;
    let mut id: String = String::new();
    if list.len() == 1 {
        let name: &str = list[0].as_str();
        if text::same_text(name, "currencies") {
            route = match method {
                Method::Post => Route::CreateCurrency,
                Method::Get => Route::ListCurrencies,
                _ => Route::NotFound,
            };
        } else if text::same_text(name, "accounts") {
            route = match method {
                Method::Post => Route::CreateAccount,
                Method::Get => Route::ListAccounts,
                _ => Route::NotFound,
            };
        } else if text::same_text(name, "categories") {
            route = match method {
                Method::Post => Route::CreateCategory,
                Method::Get => Route::ListCategories,
                _ => Route::NotFound,
            };
        } else if text::same_text(name, "transactions") {
            route = match method {
                Method::Post => Route::CreateTransaction,
                Method::Get => Route::ListTransactions,
                _ => Route::NotFound,
            };
        }
    } else if list.len() == 2 {
        let name: &str = list[0].as_str();
        if text::same_text(name, "accounts") && method == Method::Delete {
            route = Route::DeleteAccount;
        } else if text::same_text(name, "categories") && method == Method::Delete {
            route = Route::DeleteCategory;
        } else if text::same_text(name, "transactions") {
            route = match method {
                Method::Patch => Route::PatchTransaction,
                Method::Delete => Route::DeleteTransaction,
                Method::Post => if text::same_text(list[1].as_str(), "batch") {
                    Route::CreateTransactionsBatch
                } else {
                    Route::NotFound
                },
                _ => Route::NotFound,
            };
        }
        if route != Route::NotFound && route != Route::CreateTransactionsBatch {
            id = list[1].clone();
        }
    }
    Target { route, id }
}

/// The path of a URL is its beginning up to the first `?`, or all of it where there is none.
pub proof fn law_path_ends_at_the_query(url: Seq<char>)
    ensures
        before_query(url).len() <= url.len(),
        before_query(url) == url.take(before_query(url).len() as int),
        !before_query(url).contains('?'),
        before_query(url).len() < url.len() ==> url[before_query(url).len() as int] == '?',
    decreases url.len(),
{
    if url.len() > 0 && url[0] != '?' {
        let rest = url.skip(1);
        law_path_ends_at_the_query(rest);
        let path = before_query(url);
        let size = before_query(rest).len() as int;
        assert(path =~= url.take(size + 1)) by {
            assert forall|k: int| 0 <= k < size + 1 implies #[trigger] path[k] == url[k] by {
                if k > 0 {
                    assert(before_query(rest)[k - 1] == rest.take(size)[k - 1]);
                }
            }
        }
        if path.contains('?') {
            let k = choose|k: int| 0 <= k < path.len() && path[k] == '?';
            assert(k > 0);
            assert(before_query(rest)[k - 1] == '?');
        }
    }
}

/// A path without a character has no segment. With the two laws on slashes and names this says what
/// the segments of every path are.
pub proof fn law_empty_path_has_no_segments()
    ensures
        segments(seq![]) == Seq::<Seq<char>>::empty(),
{
    reveal(Seq::filter);
    let only = pieces(seq![]);
    assert(only =~= seq![Seq::<char>::empty()]);
    assert(only.drop_last() =~= Seq::<Seq<char>>::empty());
    assert(only.drop_last().filter(non_empty()) =~= Seq::<Seq<char>>::empty());
    assert(segments(seq![]) =~= Seq::<Seq<char>>::empty());
}

/// Each method and path leads to the one route that is theirs, and to no other; the id is the segment
/// after the name of the resource.
pub proof fn law_routes(method: Method, path: Seq<Seq<char>>)
    ensures
        route_of(method, path) is CreateCurrency <==> method is Post && path == seq!["currencies"@],
        route_of(method, path) is ListCurrencies <==> method is Get && path == seq!["currencies"@],
        route_of(method, path) is CreateAccount <==> method is Post && path == seq!["accounts"@],
        route_of(method, path) is ListAccounts <==> method is Get && path == seq!["accounts"@],
        route_of(method, path) is CreateCategory <==> method is Post && path == seq!["categories"@],
        route_of(method, path) is ListCategories <==> method is Get && path == seq!["categories"@],
        route_of(method, path) is CreateTransaction <==> method is Post && path
            == seq!["transactions"@],
        route_of(method, path) is ListTransactions <==> method is Get && path
            == seq!["transactions"@],
        route_of(method, path) is CreateTransactionsBatch <==> method is Post && path
            == seq!["transactions"@, "batch"@],
        route_of(method, path) is DeleteAccount <==> method is Delete && path.len() == 2 && path[0]
            == "accounts"@,
        route_of(method, path) is DeleteCategory <==> method is Delete && path.len() == 2 && path[0]
            == "categories"@,
        route_of(method, path) is DeleteTransaction <==> method is Delete && path.len() == 2
            && path[0] == "transactions"@,
        route_of(method, path) is PatchTransaction <==> method is Patch && path.len() == 2 && path[0]
            == "transactions"@,
        method is Delete && path.len() == 2 && !(route_of(method, path) is NotFound) ==> id_of(
            route_of(method, path),
            path,
        ) == path[1],
        method is Patch && !(route_of(method, path) is NotFound) ==> id_of(
            route_of(method, path),
            path,
        ) == path[1],
{
    lemma_resource_names();
    if path.len() == 1 {
        assert(path =~= seq![path[0]]);
    }
    if path.len() == 2 {
        assert(path =~= seq![path[0], path[1]]);
    }
}

/// The names of the resources differ.
pub proof fn lemma_resource_names()
    ensures
        "currencies"@ != "accounts"@,
        "currencies"@ != "categories"@,
        "currencies"@ != "transactions"@,
        "accounts"@ != "categories"@,
        "accounts"@ != "transactions"@,
        "categories"@ != "transactions"@,
{
    reveal_strlit("currencies");
    reveal_strlit("accounts");
    reveal_strlit("categories");
    reveal_strlit("transactions");
    assert("currencies"@[0] == 'c' && "currencies"@[1] == 'u');
    assert("accounts"@[0] == 'a');
    assert("categories"@[0] == 'c' && "categories"@[1] == 'a');
    assert("transactions"@[0] == 't');
}

/// A list of texts is seen as the characters of each, in their order.
pub proof fn law_texts_are_seen_as_they_are(list: Seq<String>, i: int)
    requires
        0 <= i < list.len(),
    ensures
        texts(list).len() == list.len(),
        texts(list)[i] == list[i]@,
{
}

} // verus!
