//! The windows of the desktop, as Hyprland lists them.

use vstd::prelude::*;
use vstd::string::*;

use crate::json::{field_of, lemma_array_view, text_of, trees, Json, JsonTree};
use crate::records::{HyprlandWindow, Workspace};
use crate::text::same_text;

verus! {

/// A window with its size.
pub struct Client {
    pub window: HyprlandWindow,
    pub width: u32,
    pub height: u32,
}

/// What a [`Client`] says.
pub struct ClientView {
    pub class: Seq<char>,
    pub pid: u32,
    pub workspace: i64,
    pub width: u32,
    pub height: u32,
}

impl Client {
    /// What the client says.
    pub open spec fn view(self) -> ClientView {
        ClientView {
            class: self.window.class@,
            pid: self.window.pid,
            workspace: self.window.workspace.id,
            width: self.width,
            height: self.height,
        }
    }
}

/// A number of 32 bits; 0 where there is none.
pub open spec fn small_number(tree: Option<JsonTree>) -> u32 {
    match tree {
        Some(t) => match t.unsigned() {
            Some(n) => if n <= u32::MAX {
                n as u32
            } else {
                0
            },
            None => 0,
        },
        None => 0,
    }
}

/// An item of an array.
pub open spec fn item_of(tree: Option<JsonTree>, i: int) -> Option<JsonTree> {
    match tree {
        Some(JsonTree::Array(items)) => if i < items.len() {
            Some(items[i])
        } else {
            None
        },
        _ => None,
    }
}

/// The window that a document describes.
pub open spec fn client_in(tree: JsonTree) -> ClientView {
    ClientView {
        class: match text_of(tree.field("class"@)) {
            Some(class) => class,
            None => ""@,
        },
        pid: small_number(tree.field("pid"@)),
        workspace: match field_of(tree.field("workspace"@), "id"@) {
            Some(id) => match id.signed() {
                Some(n) => n,
                None => 0,
            },
            None => 0,
        },
        width: small_number(item_of(tree.field("size"@), 0)),
        height: small_number(item_of(tree.field("size"@), 1)),
    }
}

/// The windows that a document lists.
pub open spec fn clients_in(tree: JsonTree) -> Seq<ClientView> {
    match tree {
        JsonTree::Array(items) => items.map_values(|item: JsonTree| client_in(item)),
        _ => seq![],
    }
}

/// What a list of clients says.
pub open spec fn client_views(clients: Seq<Client>) -> Seq<ClientView> {
    clients.map_values(|client: Client| client@)
}

fn read_number(json: Option<&Json>) -> (r: u32)
    ensures
        r == small_number(
            match json {
                Some(j) => Some(j@),
                None => None,
            },
        ),
{
    match json {
        Some(value) => match value.as_u64() {
            Some(n) => if n <= u32::MAX as u64 {
                n as u32
            } else {
                0
            },
            None => 0,
        },
        None => 0,
    }
}

fn read_item<'a>(json: Option<&'a Json>, i: usize) -> (r: Option<&'a Json>)
    ensures
        (match r {
            Some(j) => Some(j@),
            None => None,
        }) == item_of(
            match json {
                Some(j) => Some(j@),
                None => None,
            },
            i as int,
        ),
{
    match json {
        Some(Json::Array(items)) => {
            proof {
                lemma_array_view(*items);
            }
            if i < items.len() {
                assert(trees(items@)[i as int] == items@[i as int]@);
                Some(&items[i])
            } else {
                None
            }
        },
        _ => None,
    }
}

fn read_client(json: &Json) -> (r: Client)
    ensures
        r@ == client_in(json@),
{
    let class: &str = match json.get("class") {
        Some(value) => match value.as_str() {
            Some(text) => text,
            None => "",
        },
        None => "",
    };
    let id: i64 = match json.get("workspace") {
        Some(workspace) => match workspace.get("id") {
            Some(id) => match id.as_i64() {
                Some(n) => n,
                None => 0,
            },
            None => 0,
        },
        None => 0,
    };
    Client {
        window: HyprlandWindow {
            class: class.to_string(),
            pid: read_number(json.get("pid")),
            workspace: Workspace { id },
        },
        width: read_number(read_item(json.get("size"), 0)),
        height: read_number(read_item(json.get("size"), 1)),
    }
}

/// The windows that a document lists.
pub fn read_clients(json: &Json) -> (r: Vec<Client>)
    ensures
        client_views(r@) == clients_in(json@),
{
    let mut out: Vec<Client> = Vec::new();
    match json {
        Json::Array(items) => {
            proof {
                lemma_array_view(*items);
            }
            let ghost all = clients_in(json@);
            let mut i: usize = 0;
            assert(client_views(out@) =~= all.take(0));
            while i < items.len()
                invariant
                    i <= items.len(),
                    all.len() == items.len(),
                    json@ == JsonTree::Array(trees(items@)),
                    all == clients_in(json@),
                    client_views(out@) == all.take(i as int),
                decreases items.len() - i,
            {
                let ghost before = client_views(out@);
                let client: Client = read_client(&items[i]);
                let ghost view = client@;
                out.push(client);
                assert(client_views(out@) =~= before.push(view));
                assert(all.take(i + 1) =~= before.push(view));
                i += 1;
            }
            assert(all.take(i as int) =~= all);
        },
        _ => {
            assert(client_views(out@) =~= clients_in(json@));
        },
    }
    out
}

/// The room that a window takes.
pub open spec fn area(client: ClientView) -> int {
    client.width * client.height
}

/// The window is one of kitty on the workspace.
pub open spec fn is_kitty_on(client: ClientView, workspace: i64) -> bool {
    client.class == "kitty"@ && client.workspace == workspace
}

/// The process is that of a window of kitty on the workspace; those before it are not larger, and
/// those behind it are smaller.
pub open spec fn is_largest_kitty(clients: Seq<ClientView>, workspace: i64, pid: u32) -> bool {
    exists|i: int|
        {
            &&& 0 <= i < clients.len()
            &&& is_kitty_on(#[trigger] clients[i], workspace)
            &&& clients[i].pid == pid
            &&& forall|j: int|
                0 <= j < clients.len() && is_kitty_on(#[trigger] clients[j], workspace) ==> {
                    &&& area(clients[j]) <= area(clients[i])
                    &&& j > i ==> area(clients[j]) < area(clients[i])
                }
        }
}

fn area_of(client: &Client) -> (r: u64)
    ensures
        r == area(client@),
{
    proof {
        let (w, h) = (client.width as int, client.height as int);
        assert(0 <= w * h <= 0xffff_ffff * 0xffff_ffff) by (nonlinear_arith)
            requires
                0 <= w <= 0xffff_ffff,
                0 <= h <= 0xffff_ffff,
        ;
    }
    client.width as u64 * client.height as u64
}

/// The process of the largest window of kitty on a workspace.
pub fn find_largest_kitty(clients: &Vec<Client>, workspace: i64) -> (r: Option<u32>)
    ensures
        match r {
            Some(pid) => is_largest_kitty(client_views(clients@), workspace, pid),
            None => forall|i: int|
                0 <= i < clients@.len() ==> !is_kitty_on((#[trigger] clients@[i])@, workspace),
        },
{
    let ghost all = client_views(clients@);
    let mut best: Option<usize> = None;
    let mut i: usize = 0;
    while i < clients.len()
        invariant
            i <= clients.len(),
            all == client_views(clients@),
            match best {
                Some(b) => {
                    &&& b < i
                    &&& is_kitty_on(all[b as int], workspace)
                    &&& forall|j: int|
                        0 <= j < i && is_kitty_on(#[trigger] all[j], workspace) ==> {
                            &&& area(all[j]) <= area(all[b as int])
                            &&& j > b ==> area(all[j]) < area(all[b as int])
                        }
                },
                None => forall|j: int| 0 <= j < i ==> !is_kitty_on(#[trigger] all[j], workspace),
            },
        decreases clients.len() - i,
    {
        let client: &Client = &clients[i];
        assert(all[i as int] == client@);
        if same_text(client.window.class.as_str(), "kitty") && client.window.workspace.id
            == workspace {
            let larger: bool = match best {
                Some(b) => area_of(&clients[b]) <= area_of(client),
                None => true,
            };
            if larger {
                best = Some(i);
            }
        }
        i += 1;
    }
    match best {
        Some(b) => {
            assert(all[b as int] == clients@[b as int]@);
            Some(clients[b].window.pid)
        },
        None => {
            assert forall|j: int| 0 <= j < clients@.len() implies !is_kitty_on(
                (#[trigger] clients@[j])@,
                workspace,
            ) by {
                assert(all[j] == clients@[j]@);
            }
            None
        },
    }
}

/// A window is described by its class, its process, its workspace and its size; what is missing, is
/// no number or fits no number of its kind counts as 0.
pub proof fn lemma_windows_are_described(tree: JsonTree, n: u32)
    ensures
        client_in(tree).class == match tree.field("class"@) {
            Some(JsonTree::Text(class)) => class,
            _ => ""@,
        },
        tree.field("pid"@) == Some(JsonTree::Integer(n as int)) ==> client_in(tree).pid == n,
        !(tree.field("pid"@) matches Some(JsonTree::Integer(_))) ==> client_in(tree).pid == 0,
        tree.field("pid"@) matches Some(JsonTree::Integer(big)) && (big < 0 || big > u32::MAX)
            ==> client_in(tree).pid == 0,
        field_of(tree.field("workspace"@), "id"@) matches Some(JsonTree::Integer(id)) && i64::MIN
            <= id <= i64::MAX ==> client_in(tree).workspace == field_of(
            tree.field("workspace"@),
            "id"@,
        )->0->Integer_0,
        !(field_of(tree.field("workspace"@), "id"@) matches Some(JsonTree::Integer(id))
            && i64::MIN <= id <= i64::MAX) ==> client_in(tree).workspace == 0,
        tree.field("size"@) matches Some(JsonTree::Array(size)) && size.len() >= 2 ==> {
            let size = tree.field("size"@)->0->Array_0;
            &&& size[0] == JsonTree::Integer(n as int) ==> client_in(tree).width == n
            &&& size[1] == JsonTree::Integer(n as int) ==> client_in(tree).height == n
            &&& size[0] !is Integer ==> client_in(tree).width == 0
            &&& size[1] !is Integer ==> client_in(tree).height == 0
        },
        tree.field("size"@) matches Some(JsonTree::Array(size)) && size.len() == 1
            ==> client_in(tree).height == 0,
        !(tree.field("size"@) matches Some(JsonTree::Array(_))) ==> client_in(tree).width == 0
            && client_in(tree).height == 0,
{
}

/// The windows of a list come in its order, each as it is described; anything but a list has none.
pub proof fn lemma_windows_come_in_order(tree: JsonTree)
    ensures
        tree matches JsonTree::Array(items) ==> {
            &&& clients_in(tree).len() == items.len()
            &&& forall|i: int|
                0 <= i < items.len() ==> #[trigger] clients_in(tree)[i] == client_in(items[i])
        },
        tree !is Array ==> clients_in(tree).len() == 0,
{
}

/// The process that is found is that of the window of kitty on the workspace that takes most room,
/// by its width and its height; windows of other programs and on other workspaces do not count.
pub proof fn lemma_largest_kitty_is_found(
    clients: Seq<ClientView>,
    workspace: i64,
    pid: u32,
    largest: int,
)
    requires
        is_largest_kitty(clients, workspace, pid),
        0 <= largest < clients.len(),
        clients[largest].class == "kitty"@,
        clients[largest].workspace == workspace,
        forall|i: int|
            0 <= i < clients.len() && i != largest && (#[trigger] clients[i]).class == "kitty"@
                && clients[i].workspace == workspace ==> clients[i].width * clients[i].height
                < clients[largest].width * clients[largest].height,
    ensures
        pid == clients[largest].pid,
{
    let found = choose|i: int|
        {
            &&& 0 <= i < clients.len()
            &&& is_kitty_on(#[trigger] clients[i], workspace)
            &&& clients[i].pid == pid
            &&& forall|j: int|
                0 <= j < clients.len() && is_kitty_on(#[trigger] clients[j], workspace) ==> {
                    &&& area(clients[j]) <= area(clients[i])
                    &&& j > i ==> area(clients[j]) < area(clients[i])
                }
        };
    assert(is_kitty_on(clients[largest], workspace));
    assert(area(clients[largest]) <= area(clients[found]));
}

/// Of windows that take the same room the last one is found.
pub proof fn lemma_last_of_equal_windows_is_found(
    clients: Seq<ClientView>,
    workspace: i64,
    pid: u32,
    last: int,
)
    requires
        is_largest_kitty(clients, workspace, pid),
        0 <= last < clients.len(),
        clients[last].class == "kitty"@,
        clients[last].workspace == workspace,
        forall|i: int|
            0 <= i < clients.len() && (#[trigger] clients[i]).class == "kitty"@
                && clients[i].workspace == workspace ==> i <= last && clients[i].width
                * clients[i].height <= clients[last].width * clients[last].height,
    ensures
        pid == clients[last].pid,
{
    let found = choose|i: int|
        {
            &&& 0 <= i < clients.len()
            &&& is_kitty_on(#[trigger] clients[i], workspace)
            &&& clients[i].pid == pid
            &&& forall|j: int|
                0 <= j < clients.len() && is_kitty_on(#[trigger] clients[j], workspace) ==> {
                    &&& area(clients[j]) <= area(clients[i])
                    &&& j > i ==> area(clients[j]) < area(clients[i])
                }
        };
    assert(is_kitty_on(clients[last], workspace));
    assert(area(clients[last]) <= area(clients[found]));
    assert(found <= last);
}

/// A window is one of kitty on a workspace by its class and its workspace alone.
pub proof fn lemma_kitty_windows_are_told_by_class(client: ClientView, workspace: i64)
    ensures
        is_kitty_on(client, workspace) <==> client.class == "kitty"@ && client.workspace
            == workspace,
{
}

/// What a window with its size says are the texts and the numbers in it.
pub proof fn lemma_windows_say_what_they_hold(client: Client)
    ensures
        client@.class == client.window.class@,
        client@.pid == client.window.pid,
        client@.workspace == client.window.workspace.id,
        client@.width == client.width,
        client@.height == client.height,
{
}

} // verus!
