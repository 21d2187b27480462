//! Views, panes and the table of transitions between them.
use vstd::prelude::*;
use vstd::view::View as HasView;

verus! {

/// What the application is doing as a whole.
#[derive(Clone, Copy, Debug, PartialEq, Eq, Structural)]
pub enum AppState {
    FolderView,
    EmailList,
    EmailContent,
    AttachmentView,
    Help,
    Quit,
}

/// The layouts the screen can show.
///
/// With the content pane shown the views run
/// `FolderMessages -> MessagesContent -> Content`; with it hidden they run
/// `FolderMessages -> Messages -> MessagesAttachments`.
#[derive(Clone, Copy, Debug, PartialEq, Eq, Structural)]
pub enum View {
    FolderMessages,
    MessagesContent,
    Content,
    Messages,
    MessagesAttachments,
}

/// The panes a view is made of.
#[derive(Clone, Copy, Debug, PartialEq, Eq, Structural)]
pub enum ActivePane {
    Folders,
    Messages,
    Content,
    Attachments,
}

#[derive(Clone, Copy, Debug, PartialEq, Eq, Structural)]
pub enum PaneSwitchDirection {
    Left,
    Right,
}

#[derive(Clone, Copy, Debug, PartialEq, Eq, Structural)]
pub enum ScrollDirection {
    Up,
    Down,
}

/// Whether `v` belongs to the chain of views used for the given visibility
/// of the content pane.
pub open spec fn view_in_mode(v: View, content_hidden: bool) -> bool {
    if content_hidden {
        v == View::FolderMessages || v == View::Messages || v == View::MessagesAttachments
    } else {
        v == View::FolderMessages || v == View::MessagesContent || v == View::Content
    }
}

/// The panes of a view, in cycling order. A view of the other mode falls
/// back to the message list alone.
pub open spec fn spec_available_panes(v: View, content_hidden: bool) -> Seq<ActivePane> {
    if content_hidden {
        match v {
            View::FolderMessages => seq![ActivePane::Folders, ActivePane::Messages],
            View::Messages => seq![ActivePane::Messages],
            View::MessagesAttachments => seq![ActivePane::Messages, ActivePane::Attachments],
            _ => seq![ActivePane::Messages],
        }
    } else {
        match v {
            View::FolderMessages => seq![ActivePane::Folders, ActivePane::Messages],
            View::MessagesContent => seq![ActivePane::Messages, ActivePane::Content],
            View::Content => seq![ActivePane::Content],
            _ => seq![ActivePane::Messages],
        }
    }
}

/// The pane that receives focus when a view is entered.
pub open spec fn spec_default_pane(v: View, content_hidden: bool) -> ActivePane {
    if content_hidden {
        match v {
            View::FolderMessages => ActivePane::Folders,
            View::MessagesAttachments => ActivePane::Attachments,
            _ => ActivePane::Messages,
        }
    } else {
        match v {
            View::FolderMessages => ActivePane::Folders,
            View::Content => ActivePane::Content,
            _ => ActivePane::Messages,
        }
    }
}

/// One step forward along the chain of the current mode, if there is one.
pub open spec fn spec_next_view(v: View, content_hidden: bool) -> Option<View> {
    if content_hidden {
        match v {
            View::FolderMessages => Some(View::Messages),
            View::Messages => Some(View::MessagesAttachments),
            _ => None,
        }
    } else {
        match v {
            View::FolderMessages => Some(View::MessagesContent),
            View::MessagesContent => Some(View::Content),
            _ => None,
        }
    }
}

/// One step back along the chain of the current mode, if there is one.
pub open spec fn spec_prev_view(v: View, content_hidden: bool) -> Option<View> {
    if content_hidden {
        match v {
            View::MessagesAttachments => Some(View::Messages),
            View::Messages => Some(View::FolderMessages),
            _ => None,
        }
    } else {
        match v {
            View::Content => Some(View::MessagesContent),
            View::MessagesContent => Some(View::FolderMessages),
            _ => None,
        }
    }
}

/// The last view of the chain of a mode.
pub open spec fn terminal_view(content_hidden: bool) -> View {
    if content_hidden { View::MessagesAttachments } else { View::Content }
}

impl View {
    pub fn get_available_panes(&self, content_hidden: bool) -> (r: Vec<ActivePane>)
        ensures
            r@ == spec_available_panes(*self, content_hidden),
    {
        if content_hidden {
            match self {
                View::FolderMessages => vec![ActivePane::Folders, ActivePane::Messages],
                View::Messages => vec![ActivePane::Messages],
                View::MessagesAttachments => vec![ActivePane::Messages, ActivePane::Attachments],
                _ => vec![ActivePane::Messages],
            }
        } else {
            match self {
                View::FolderMessages => vec![ActivePane::Folders, ActivePane::Messages],
                View::MessagesContent => vec![ActivePane::Messages, ActivePane::Content],
                View::Content => vec![ActivePane::Content],
                _ => vec![ActivePane::Messages],
            }
        }
    }

    pub fn get_default_active_pane(&self, content_hidden: bool) -> (r: ActivePane)
        ensures
            r == spec_default_pane(*self, content_hidden),
    {
        if content_hidden {
            match self {
                View::FolderMessages => ActivePane::Folders,
                View::MessagesAttachments => ActivePane::Attachments,
                _ => ActivePane::Messages,
            }
        } else {
            match self {
                View::FolderMessages => ActivePane::Folders,
                View::Content => ActivePane::Content,
                _ => ActivePane::Messages,
            }
        }
    }

    /// The view to the right of this one; `None` at the end of the chain.
    pub fn next_view(&self, content_hidden: bool) -> (r: Option<View>)
        ensures
            r == spec_next_view(*self, content_hidden),
            view_in_mode(*self, content_hidden) ==> (r is None <==> *self == terminal_view(content_hidden)),
            r matches Some(n) ==> view_in_mode(n, content_hidden),
    {
        if content_hidden {
            match self {
                View::FolderMessages => Some(View::Messages),
                View::Messages => Some(View::MessagesAttachments),
                _ => None,
            }
        } else {
            match self {
                View::FolderMessages => Some(View::MessagesContent),
                View::MessagesContent => Some(View::Content),
                _ => None,
            }
        }
    }

    /// The view to the left of this one; `None` at `FolderMessages`.
    pub fn prev_view(&self, content_hidden: bool) -> (r: Option<View>)
        ensures
            r == spec_prev_view(*self, content_hidden),
            view_in_mode(*self, content_hidden) ==> (r is None <==> *self == View::FolderMessages),
            r matches Some(p) ==> view_in_mode(p, content_hidden),
    {
        if content_hidden {
            match self {
                View::MessagesAttachments => Some(View::Messages),
                View::Messages => Some(View::FolderMessages),
                _ => None,
            }
        } else {
            match self {
                View::Content => Some(View::MessagesContent),
                View::MessagesContent => Some(View::FolderMessages),
                _ => None,
            }
        }
    }
}

/// Within one mode, a step leads only to a neighbour in that mode's chain:
/// stepping forward and then back (or back and then forward) returns to
/// the view that was left, and the only views without a next or previous
/// one are the two ends of the chain.
pub proof fn law_steps_stay_in_chain(v: View, content_hidden: bool)
    requires
        view_in_mode(v, content_hidden),
    ensures
        spec_next_view(v, content_hidden) matches Some(n) ==> view_in_mode(n, content_hidden)
            && spec_prev_view(n, content_hidden) == Some(v),
        spec_prev_view(v, content_hidden) matches Some(p) ==> view_in_mode(p, content_hidden)
            && spec_next_view(p, content_hidden) == Some(v),
        spec_next_view(v, content_hidden) is None <==> v == terminal_view(content_hidden),
        spec_prev_view(v, content_hidden) is None <==> v == View::FolderMessages,
{
}

} // verus!
