//! What stays the same when the coordinator's state changes.
use vstd::prelude::*;

use crate::server::Server;

verus! {

/// Whether `a` and `b` hold the same but for the diagnostics.
pub open spec fn same_but_diags(a: Server, b: Server) -> bool {
    &&& a.config == b.config
    &&& a.ws == b.ws
    &&& a.names == b.names
    &&& a.addr == b.addr
    &&& a.opened_urls == b.opened_urls
    &&& a.body == b.body
    &&& a.output == b.output
    &&& a.focus == b.focus
    &&& a.progress == b.progress
    &&& a.requests == b.requests
    &&& a.current_hover == b.current_hover
    &&& a.clients == b.clients
    &&& a.capabilities == b.capabilities
    &&& a.files == b.files
    &&& a.autorun == b.autorun
}

/// Whether `a` and `b` hold the same but for the output.
pub open spec fn same_but_output(a: Server, b: Server) -> bool {
    &&& a.config == b.config
    &&& a.ws == b.ws
    &&& a.names == b.names
    &&& a.addr == b.addr
    &&& a.opened_urls == b.opened_urls
    &&& a.body == b.body
    &&& a.focus == b.focus
    &&& a.progress == b.progress
    &&& a.diags == b.diags
    &&& a.requests == b.requests
    &&& a.current_hover == b.current_hover
    &&& a.clients == b.clients
    &&& a.capabilities == b.capabilities
    &&& a.files == b.files
    &&& a.autorun == b.autorun
}

/// Whether `a` and `b` hold the same but for the progress.
pub open spec fn same_but_progress(a: Server, b: Server) -> bool {
    &&& a.config == b.config
    &&& a.ws == b.ws
    &&& a.names == b.names
    &&& a.addr == b.addr
    &&& a.opened_urls == b.opened_urls
    &&& a.body == b.body
    &&& a.output == b.output
    &&& a.focus == b.focus
    &&& a.diags == b.diags
    &&& a.requests == b.requests
    &&& a.current_hover == b.current_hover
    &&& a.clients == b.clients
    &&& a.capabilities == b.capabilities
    &&& a.files == b.files
    &&& a.autorun == b.autorun
}

/// Whether `a` and `b` hold the same but for the open requests.
pub open spec fn same_but_requests(a: Server, b: Server) -> bool {
    &&& a.config == b.config
    &&& a.ws == b.ws
    &&& a.names == b.names
    &&& a.addr == b.addr
    &&& a.opened_urls == b.opened_urls
    &&& a.body == b.body
    &&& a.output == b.output
    &&& a.focus == b.focus
    &&& a.progress == b.progress
    &&& a.diags == b.diags
    &&& a.current_hover == b.current_hover
    &&& a.clients == b.clients
    &&& a.capabilities == b.capabilities
    &&& a.files == b.files
    &&& a.autorun == b.autorun
}

/// Whether `a` and `b` hold the same but for the focused window's record.
pub open spec fn same_but_hover(a: Server, b: Server) -> bool {
    &&& a.config == b.config
    &&& a.ws == b.ws
    &&& a.names == b.names
    &&& a.addr == b.addr
    &&& a.opened_urls == b.opened_urls
    &&& a.body == b.body
    &&& a.output == b.output
    &&& a.focus == b.focus
    &&& a.progress == b.progress
    &&& a.diags == b.diags
    &&& a.requests == b.requests
    &&& a.clients == b.clients
    &&& a.capabilities == b.capabilities
    &&& a.files == b.files
    &&& a.autorun == b.autorun
}

/// Whether `a` and `b` hold the same but for the focus.
pub open spec fn same_but_focus(a: Server, b: Server) -> bool {
    &&& a.config == b.config
    &&& a.ws == b.ws
    &&& a.names == b.names
    &&& a.addr == b.addr
    &&& a.opened_urls == b.opened_urls
    &&& a.body == b.body
    &&& a.output == b.output
    &&& a.progress == b.progress
    &&& a.diags == b.diags
    &&& a.requests == b.requests
    &&& a.current_hover == b.current_hover
    &&& a.clients == b.clients
    &&& a.capabilities == b.capabilities
    &&& a.files == b.files
    &&& a.autorun == b.autorun
}

/// Whether `a` and `b` hold the same but for the open requests and the servers.
pub open spec fn same_but_requests_clients(a: Server, b: Server) -> bool {
    &&& a.config == b.config
    &&& a.ws == b.ws
    &&& a.names == b.names
    &&& a.addr == b.addr
    &&& a.opened_urls == b.opened_urls
    &&& a.body == b.body
    &&& a.output == b.output
    &&& a.focus == b.focus
    &&& a.progress == b.progress
    &&& a.diags == b.diags
    &&& a.current_hover == b.current_hover
    &&& a.capabilities == b.capabilities
    &&& a.files == b.files
    &&& a.autorun == b.autorun
}

/// Whether `a` and `b` hold the same but for the open requests and the output.
pub open spec fn same_but_requests_output(a: Server, b: Server) -> bool {
    &&& a.config == b.config
    &&& a.ws == b.ws
    &&& a.names == b.names
    &&& a.addr == b.addr
    &&& a.opened_urls == b.opened_urls
    &&& a.body == b.body
    &&& a.focus == b.focus
    &&& a.progress == b.progress
    &&& a.diags == b.diags
    &&& a.current_hover == b.current_hover
    &&& a.clients == b.clients
    &&& a.capabilities == b.capabilities
    &&& a.files == b.files
    &&& a.autorun == b.autorun
}

/// Whether `a` and `b` hold the same but for the open requests, the servers
/// and the focused window's record.
pub open spec fn same_but_requests_clients_hover(a: Server, b: Server) -> bool {
    &&& a.config == b.config
    &&& a.ws == b.ws
    &&& a.names == b.names
    &&& a.addr == b.addr
    &&& a.opened_urls == b.opened_urls
    &&& a.body == b.body
    &&& a.output == b.output
    &&& a.focus == b.focus
    &&& a.progress == b.progress
    &&& a.diags == b.diags
    &&& a.capabilities == b.capabilities
    &&& a.files == b.files
    &&& a.autorun == b.autorun
}

/// Whether `a` and `b` hold the same but for what the servers can do.
pub open spec fn same_but_capabilities(a: Server, b: Server) -> bool {
    &&& a.config == b.config
    &&& a.ws == b.ws
    &&& a.names == b.names
    &&& a.addr == b.addr
    &&& a.opened_urls == b.opened_urls
    &&& a.body == b.body
    &&& a.output == b.output
    &&& a.focus == b.focus
    &&& a.progress == b.progress
    &&& a.diags == b.diags
    &&& a.requests == b.requests
    &&& a.current_hover == b.current_hover
    &&& a.clients == b.clients
    &&& a.files == b.files
    &&& a.autorun == b.autorun
}

/// Whether `a` and `b` hold the same but for the output, the diagnostics and
/// the focused window's record.
pub open spec fn same_but_shown(a: Server, b: Server) -> bool {
    &&& a.config == b.config
    &&& a.ws == b.ws
    &&& a.names == b.names
    &&& a.addr == b.addr
    &&& a.opened_urls == b.opened_urls
    &&& a.body == b.body
    &&& a.focus == b.focus
    &&& a.progress == b.progress
    &&& a.requests == b.requests
    &&& a.clients == b.clients
    &&& a.capabilities == b.capabilities
    &&& a.files == b.files
    &&& a.autorun == b.autorun
}

/// Whether `a` and `b` hold the same but for the requests whose results are
/// run at once.
pub open spec fn same_but_autorun(a: Server, b: Server) -> bool {
    &&& a.config == b.config
    &&& a.ws == b.ws
    &&& a.names == b.names
    &&& a.addr == b.addr
    &&& a.opened_urls == b.opened_urls
    &&& a.body == b.body
    &&& a.output == b.output
    &&& a.focus == b.focus
    &&& a.progress == b.progress
    &&& a.diags == b.diags
    &&& a.requests == b.requests
    &&& a.current_hover == b.current_hover
    &&& a.clients == b.clients
    &&& a.capabilities == b.capabilities
    &&& a.files == b.files
}

/// Whether `a` and `b` hold the same but for the open requests, the servers
/// and the requests whose results are run at once.
pub open spec fn same_but_requests_clients_autorun(a: Server, b: Server) -> bool {
    &&& a.config == b.config
    &&& a.ws == b.ws
    &&& a.names == b.names
    &&& a.addr == b.addr
    &&& a.opened_urls == b.opened_urls
    &&& a.body == b.body
    &&& a.output == b.output
    &&& a.focus == b.focus
    &&& a.progress == b.progress
    &&& a.diags == b.diags
    &&& a.current_hover == b.current_hover
    &&& a.capabilities == b.capabilities
    &&& a.files == b.files
}

/// Whether `a` and `b` hold the same but for the windows.
pub open spec fn same_but_ws(a: Server, b: Server) -> bool {
    &&& a.config == b.config
    &&& a.names == b.names
    &&& a.addr == b.addr
    &&& a.opened_urls == b.opened_urls
    &&& a.body == b.body
    &&& a.output == b.output
    &&& a.focus == b.focus
    &&& a.progress == b.progress
    &&& a.diags == b.diags
    &&& a.requests == b.requests
    &&& a.current_hover == b.current_hover
    &&& a.clients == b.clients
    &&& a.capabilities == b.capabilities
    &&& a.files == b.files
    &&& a.autorun == b.autorun
}

} // verus!
