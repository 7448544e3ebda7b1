//! How a running editor is found and told to open files.

use vstd::prelude::*;
use vstd::string::*;

use crate::records::{MaterializedPath, NvimInstance};
use crate::text::{contains, decimal, decimal_of, has_text, opt_view, string_views};

verus! {

/// The first of the sockets that has the name of the session in its path.
pub open spec fn first_with_name(sockets: Seq<Seq<char>>, session: Seq<char>) -> Option<Seq<char>>
    decreases sockets.len(),
{
    if sockets.len() == 0 {
        None
    } else if has_text(sockets[0], session) {
        Some(sockets[0])
    } else {
        first_with_name(sockets.drop_first(), session)
    }
}

/// The socket of the editor for a session: the one that the environment names, else one with the
/// name of the session in its path, else the first one.
pub open spec fn socket_for(
    named: Option<Seq<char>>,
    sockets: Seq<Seq<char>>,
    session: Seq<char>,
) -> Option<Seq<char>> {
    match named {
        Some(socket) => Some(socket),
        None => match first_with_name(sockets, session) {
            Some(socket) => Some(socket),
            None => if sockets.len() > 0 {
                Some(sockets[0])
            } else {
                None
            },
        },
    }
}

/// The socket of the editor for a session. `named` is the one that the environment names, where it
/// is there, and `sockets` are the others that are there.
pub fn choose_socket(named: Option<String>, sockets: &Vec<String>, session: &str) -> (r: Option<
    String,
>)
    ensures
        opt_view(r) == socket_for(opt_view(named), string_views(sockets@), session@),
{
    if let Some(socket) = named {
        return Some(socket);
    }
    let ghost all = string_views(sockets@);
    let mut i: usize = 0;
    assert(all.skip(0) =~= all);
    while i < sockets.len()
        invariant
            i <= sockets.len(),
            all == string_views(sockets@),
            named is None,
            first_with_name(all.skip(i as int), session@) == first_with_name(all, session@),
        decreases sockets.len() - i,
    {
        assert(all.skip(i as int)[0] == sockets@[i as int]@);
        assert(all.skip(i as int).drop_first() =~= all.skip(i + 1));
        if contains(sockets[i].as_str(), session) {
            return Some(sockets[i].clone());
        }
        i += 1;
    }
    if sockets.len() > 0 {
        Some(sockets[0].clone())
    } else {
        None
    }
}

/// The arguments with which `nvr` tells an editor to open a file, at its line.
pub open spec fn open_texts(address: Seq<char>, file: Seq<char>, line: Option<u32>) -> Seq<
    Seq<char>,
> {
    match line {
        Some(n) => seq![
            "--servername"@,
            address,
            "--remote-silent"@,
            "+"@ + decimal_of(n as nat),
            file,
        ],
        None => seq!["--servername"@, address, "--remote-silent"@, file],
    }
}

/// The arguments with which `nvr` tells an editor to open a file, at its line.
pub fn open_arguments(instance: &NvimInstance, target: &MaterializedPath) -> (r: Vec<String>)
    ensures
        string_views(r@) == open_texts(instance.address@, target.absolute@, target.line),
{
    let mut out: Vec<String> = Vec::new();
    out.push("--servername".to_string());
    out.push(instance.address.clone());
    out.push("--remote-silent".to_string());
    if let Some(line) = target.line {
        let mut place: String = "+".to_string();
        place.append(decimal(line as u64).as_str());
        out.push(place);
    }
    out.push(target.absolute.clone());
    assert(string_views(out@) =~= open_texts(instance.address@, target.absolute@, target.line));
    out
}

/// An editor is found just where there is a socket, and what is found is there.
pub proof fn lemma_socket_is_there(
    named: Option<Seq<char>>,
    sockets: Seq<Seq<char>>,
    session: Seq<char>,
)
    ensures
        socket_for(named, sockets, session) is None <==> named is None && sockets.len() == 0,
        socket_for(named, sockets, session) matches Some(socket) ==> named == Some(socket)
            || sockets.contains(socket),
{
    if named is None {
        lemma_first_with_name(sockets, session);
    }
}

proof fn lemma_first_with_name(sockets: Seq<Seq<char>>, session: Seq<char>)
    ensures
        first_with_name(sockets, session) matches Some(socket) ==> sockets.contains(socket)
            && has_text(socket, session),
        first_with_name(sockets, session) is None ==> forall|i: int|
            0 <= i < sockets.len() ==> !has_text(#[trigger] sockets[i], session),
    decreases sockets.len(),
{
    if sockets.len() > 0 && !has_text(sockets[0], session) {
        let rest = sockets.drop_first();
        lemma_first_with_name(rest, session);
        if let Some(socket) = first_with_name(rest, session) {
            let i = choose|i: int| 0 <= i < rest.len() && rest[i] == socket;
            assert(sockets[i + 1] == socket);
        } else {
            assert forall|i: int| 0 <= i < sockets.len() implies !has_text(
                #[trigger] sockets[i],
                session,
            ) by {
                if i > 0 {
                    assert(rest[i - 1] == sockets[i]);
                }
            }
        }
    }
}

/// An editor whose socket has the name of the session in its path goes before the others.
pub proof fn lemma_own_socket_is_preferred(
    sockets: Seq<Seq<char>>,
    session: Seq<char>,
    own: Seq<char>,
)
    requires
        sockets.contains(own),
        has_text(own, session),
    ensures
        socket_for(None, sockets, session) matches Some(socket) && has_text(socket, session),
{
    lemma_first_with_name(sockets, session);
}

/// Without a socket that the environment names, the first one with the name of the session in its
/// path is taken, and without such a one the first of all.
pub proof fn lemma_first_own_socket_is_taken(
    sockets: Seq<Seq<char>>,
    session: Seq<char>,
    k: int,
)
    requires
        0 <= k <= sockets.len(),
        forall|i: int| 0 <= i < k ==> !has_text(#[trigger] sockets[i], session),
        k < sockets.len() ==> has_text(sockets[k], session),
    ensures
        first_with_name(sockets, session) == if k < sockets.len() {
            Some(sockets[k])
        } else {
            None
        },
        k < sockets.len() ==> socket_for(None, sockets, session) == Some(sockets[k]),
        k == sockets.len() && sockets.len() > 0 ==> socket_for(None, sockets, session) == Some(
            sockets[0],
        ),
    decreases k,
{
    if k > 0 {
        let rest = sockets.drop_first();
        assert(!has_text(sockets[0], session));
        assert forall|i: int| 0 <= i < k - 1 implies !has_text(#[trigger] rest[i], session) by {
            assert(rest[i] == sockets[i + 1]);
        }
        lemma_first_own_socket_is_taken(rest, session, k - 1);
    }
}

/// A socket that the environment names goes before all others.
pub proof fn lemma_named_socket_is_taken(
    named: Seq<char>,
    sockets: Seq<Seq<char>>,
    session: Seq<char>,
)
    ensures
        socket_for(Some(named), sockets, session) == Some(named),
{
}

/// An editor is told the file last, and the line before it where there is one; it is reached by its
/// address.
pub proof fn lemma_editors_are_told_file_and_line(
    address: Seq<char>,
    file: Seq<char>,
    line: u32,
)
    ensures
        open_texts(address, file, None) == seq![
            "--servername"@,
            address,
            "--remote-silent"@,
            file,
        ],
        open_texts(address, file, Some(line)) == open_texts(address, file, None).insert(
            3,
            "+"@ + decimal_of(line as nat),
        ),
{
    assert(open_texts(address, file, Some(line)) =~= open_texts(address, file, None).insert(
        3,
        "+"@ + decimal_of(line as nat),
    ));
}

} // verus!
