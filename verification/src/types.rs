//! Identifiers and content kinds shared by the whole library.

use vstd::prelude::*;
use crate::text::str_eq;

verus! {

/// Path of a file relative to the synchronised folder.
pub type RelativeFilePath = String;
/// Absolute path of a file on disk.
pub type AbsoluteFilePath = String;
/// Identifier of a content on the remote side.
pub type ContentId = i32;
/// Identifier of a revision of a remote content.
pub type RevisionId = i32;
/// Milliseconds since the epoch of a last modification on disk.
pub type LastModifiedTimestamp = i64;
/// Milliseconds since the epoch of a last modification, as the state records it.
pub type DiskTimestamp = u64;
/// Raw type of a remote event.
pub type EventType = String;

/// Kind of a remote content.
#[derive(PartialEq, Eq, Structural, Clone, Copy, Debug)]
pub enum ContentType {
    File,
    Folder,
    HtmlDocument,
}

/// The content type named by a raw remote type name, if any.
pub open spec fn content_type_named(name: Seq<char>) -> Option<ContentType> {
    if name == "file"@ {
        Some(ContentType::File)
    } else if name == "folder"@ {
        Some(ContentType::Folder)
    } else if name == "html-document"@ {
        Some(ContentType::HtmlDocument)
    } else {
        None
    }
}

/// The raw remote type name of a content type.
pub open spec fn content_type_name(content_type: ContentType) -> Seq<char> {
    match content_type {
        ContentType::File => "file"@,
        ContentType::Folder => "folder"@,
        ContentType::HtmlDocument => "html-document"@,
    }
}

impl ContentType {
    /// Reads a content type from its raw remote name.
    pub fn from_str(str_: &str) -> (r: Option<ContentType>)
        ensures
            r == content_type_named(str_@),
    {
        if str_eq(str_, "file") {
            Some(ContentType::File)
        } else if str_eq(str_, "folder") {
            Some(ContentType::Folder)
        } else if str_eq(str_, "html-document") {
            Some(ContentType::HtmlDocument)
        } else {
            None
        }
    }

    /// The raw remote name of this content type.
    pub fn to_string(&self) -> (r: String)
        ensures
            r@ == content_type_name(*self),
    {
        match self {
            ContentType::File => "file".to_string(),
            ContentType::Folder => "folder".to_string(),
            ContentType::HtmlDocument => "html-document".to_string(),
        }
    }
}

/// Kind of change announced by a remote event.
#[derive(PartialEq, Eq, Structural, Clone, Copy, Debug)]
pub enum RemoteEventType {
    Created,
    Modified,
    Deleted,
}

/// The remote event kind named by a raw event type, if any.
pub open spec fn remote_event_type_named(name: Seq<char>) -> Option<RemoteEventType> {
    if name == "content.modified.file"@ || name == "content.modified.html-document"@
        || name == "content.modified.folder"@ {
        Some(RemoteEventType::Modified)
    } else if name == "content.created.file"@ || name == "content.created.html-document"@
        || name == "content.created.folder"@ || name == "content.undeleted.html-document"@
        || name == "content.undeleted.file"@ || name == "content.undeleted.folder"@ {
        Some(RemoteEventType::Created)
    } else if name == "content.deleted.html-document"@ || name == "content.deleted.file"@
        || name == "content.deleted.folder"@ {
        Some(RemoteEventType::Deleted)
    } else {
        None
    }
}

impl RemoteEventType {
    /// Reads a remote event kind from its raw event type.
    pub fn from_str(str_: &str) -> (r: Option<RemoteEventType>)
        ensures
            r == remote_event_type_named(str_@),
    {
        if str_eq(str_, "content.modified.file") || str_eq(str_, "content.modified.html-document")
            || str_eq(str_, "content.modified.folder") {
            Some(RemoteEventType::Modified)
        } else if str_eq(str_, "content.created.file") || str_eq(
            str_,
            "content.created.html-document",
        ) || str_eq(str_, "content.created.folder") || str_eq(
            str_,
            "content.undeleted.html-document",
        ) || str_eq(str_, "content.undeleted.file") || str_eq(str_, "content.undeleted.folder") {
            Some(RemoteEventType::Created)
        } else if str_eq(str_, "content.deleted.html-document") || str_eq(
            str_,
            "content.deleted.file",
        ) || str_eq(str_, "content.deleted.folder") {
            Some(RemoteEventType::Deleted)
        } else {
            None
        }
    }
}


/// The name of a Tracim content event: `content.<action>.<content type>`.
pub open spec fn content_event_name(action: Seq<char>, content_type: ContentType) -> Seq<char> {
    "content."@ + action + "."@ + content_type_name(content_type)
}

proof fn lemma_event_names()
    ensures
        content_event_name("modified"@, ContentType::File) == "content.modified.file"@,
        content_event_name("modified"@, ContentType::HtmlDocument) == "content.modified.html-document"@,
        content_event_name("modified"@, ContentType::Folder) == "content.modified.folder"@,
        content_event_name("created"@, ContentType::File) == "content.created.file"@,
        content_event_name("created"@, ContentType::HtmlDocument) == "content.created.html-document"@,
        content_event_name("created"@, ContentType::Folder) == "content.created.folder"@,
        content_event_name("undeleted"@, ContentType::File) == "content.undeleted.file"@,
        content_event_name("undeleted"@, ContentType::HtmlDocument) == "content.undeleted.html-document"@,
        content_event_name("undeleted"@, ContentType::Folder) == "content.undeleted.folder"@,
        content_event_name("deleted"@, ContentType::File) == "content.deleted.file"@,
        content_event_name("deleted"@, ContentType::HtmlDocument) == "content.deleted.html-document"@,
        content_event_name("deleted"@, ContentType::Folder) == "content.deleted.folder"@,
{
    assert(content_event_name("modified"@, ContentType::File) == "content.modified.file"@) by {
        reveal_strlit("content.");
        reveal_strlit("modified");
        reveal_strlit(".");
        reveal_strlit("file");
        reveal_strlit("content.modified.file");
        assert("content."@ + "modified"@ + "."@ + "file"@ =~= "content.modified.file"@);
    }
    assert(content_event_name("modified"@, ContentType::HtmlDocument) == "content.modified.html-document"@) by {
        reveal_strlit("content.");
        reveal_strlit("modified");
        reveal_strlit(".");
        reveal_strlit("html-document");
        reveal_strlit("content.modified.html-document");
        assert("content."@ + "modified"@ + "."@ + "html-document"@ =~= "content.modified.html-document"@);
    }
    assert(content_event_name("modified"@, ContentType::Folder) == "content.modified.folder"@) by {
        reveal_strlit("content.");
        reveal_strlit("modified");
        reveal_strlit(".");
        reveal_strlit("folder");
        reveal_strlit("content.modified.folder");
        assert("content."@ + "modified"@ + "."@ + "folder"@ =~= "content.modified.folder"@);
    }
    assert(content_event_name("created"@, ContentType::File) == "content.created.file"@) by {
        reveal_strlit("content.");
        reveal_strlit("created");
        reveal_strlit(".");
        reveal_strlit("file");
        reveal_strlit("content.created.file");
        assert("content."@ + "created"@ + "."@ + "file"@ =~= "content.created.file"@);
    }
    assert(content_event_name("created"@, ContentType::HtmlDocument) == "content.created.html-document"@) by {
        reveal_strlit("content.");
        reveal_strlit("created");
        reveal_strlit(".");
        reveal_strlit("html-document");
        reveal_strlit("content.created.html-document");
        assert("content."@ + "created"@ + "."@ + "html-document"@ =~= "content.created.html-document"@);
    }
    assert(content_event_name("created"@, ContentType::Folder) == "content.created.folder"@) by {
        reveal_strlit("content.");
        reveal_strlit("created");
        reveal_strlit(".");
        reveal_strlit("folder");
        reveal_strlit("content.created.folder");
        assert("content."@ + "created"@ + "."@ + "folder"@ =~= "content.created.folder"@);
    }
    assert(content_event_name("undeleted"@, ContentType::File) == "content.undeleted.file"@) by {
        reveal_strlit("content.");
        reveal_strlit("undeleted");
        reveal_strlit(".");
        reveal_strlit("file");
        reveal_strlit("content.undeleted.file");
        assert("content."@ + "undeleted"@ + "."@ + "file"@ =~= "content.undeleted.file"@);
    }
    assert(content_event_name("undeleted"@, ContentType::HtmlDocument) == "content.undeleted.html-document"@) by {
        reveal_strlit("content.");
        reveal_strlit("undeleted");
        reveal_strlit(".");
        reveal_strlit("html-document");
        reveal_strlit("content.undeleted.html-document");
        assert("content."@ + "undeleted"@ + "."@ + "html-document"@ =~= "content.undeleted.html-document"@);
    }
    assert(content_event_name("undeleted"@, ContentType::Folder) == "content.undeleted.folder"@) by {
        reveal_strlit("content.");
        reveal_strlit("undeleted");
        reveal_strlit(".");
        reveal_strlit("folder");
        reveal_strlit("content.undeleted.folder");
        assert("content."@ + "undeleted"@ + "."@ + "folder"@ =~= "content.undeleted.folder"@);
    }
    assert(content_event_name("deleted"@, ContentType::File) == "content.deleted.file"@) by {
        reveal_strlit("content.");
        reveal_strlit("deleted");
        reveal_strlit(".");
        reveal_strlit("file");
        reveal_strlit("content.deleted.file");
        assert("content."@ + "deleted"@ + "."@ + "file"@ =~= "content.deleted.file"@);
    }
    assert(content_event_name("deleted"@, ContentType::HtmlDocument) == "content.deleted.html-document"@) by {
        reveal_strlit("content.");
        reveal_strlit("deleted");
        reveal_strlit(".");
        reveal_strlit("html-document");
        reveal_strlit("content.deleted.html-document");
        assert("content."@ + "deleted"@ + "."@ + "html-document"@ =~= "content.deleted.html-document"@);
    }
    assert(content_event_name("deleted"@, ContentType::Folder) == "content.deleted.folder"@) by {
        reveal_strlit("content.");
        reveal_strlit("deleted");
        reveal_strlit(".");
        reveal_strlit("folder");
        reveal_strlit("content.deleted.folder");
        assert("content."@ + "deleted"@ + "."@ + "folder"@ =~= "content.deleted.folder"@);
    }
}

proof fn lemma_event_kinds()
    ensures
        remote_event_type_named("content.modified.file"@) == Some(RemoteEventType::Modified),
        remote_event_type_named("content.modified.html-document"@) == Some(RemoteEventType::Modified),
        remote_event_type_named("content.modified.folder"@) == Some(RemoteEventType::Modified),
        remote_event_type_named("content.created.file"@) == Some(RemoteEventType::Created),
        remote_event_type_named("content.created.html-document"@) == Some(RemoteEventType::Created),
        remote_event_type_named("content.created.folder"@) == Some(RemoteEventType::Created),
        remote_event_type_named("content.undeleted.file"@) == Some(RemoteEventType::Created),
        remote_event_type_named("content.undeleted.html-document"@) == Some(RemoteEventType::Created),
        remote_event_type_named("content.undeleted.folder"@) == Some(RemoteEventType::Created),
        remote_event_type_named("content.deleted.file"@) == Some(RemoteEventType::Deleted),
        remote_event_type_named("content.deleted.html-document"@) == Some(RemoteEventType::Deleted),
        remote_event_type_named("content.deleted.folder"@) == Some(RemoteEventType::Deleted),
{
    assert(remote_event_type_named("content.modified.file"@) == Some(RemoteEventType::Modified)) by {
        assert("content.modified.file"@ != "content.modified.html-document"@) by {
            reveal_strlit("content.modified.file");
            reveal_strlit("content.modified.html-document");
            assert("content.modified.file"@.len() == 21);
            assert("content.modified.html-document"@.len() == 30);
        }
        assert("content.modified.file"@ != "content.modified.folder"@) by {
            reveal_strlit("content.modified.file");
            reveal_strlit("content.modified.folder");
            assert("content.modified.file"@.len() == 21);
            assert("content.modified.folder"@.len() == 23);
        }
        assert("content.modified.file"@ != "content.created.file"@) by {
            reveal_strlit("content.modified.file");
            reveal_strlit("content.created.file");
            assert("content.modified.file"@.len() == 21);
            assert("content.created.file"@.len() == 20);
        }
        assert("content.modified.file"@ != "content.created.html-document"@) by {
            reveal_strlit("content.modified.file");
            reveal_strlit("content.created.html-document");
            assert("content.modified.file"@.len() == 21);
            assert("content.created.html-document"@.len() == 29);
        }
        assert("content.modified.file"@ != "content.created.folder"@) by {
            reveal_strlit("content.modified.file");
            reveal_strlit("content.created.folder");
            assert("content.modified.file"@.len() == 21);
            assert("content.created.folder"@.len() == 22);
        }
        assert("content.modified.file"@ != "content.undeleted.file"@) by {
            reveal_strlit("content.modified.file");
            reveal_strlit("content.undeleted.file");
            assert("content.modified.file"@.len() == 21);
            assert("content.undeleted.file"@.len() == 22);
        }
        assert("content.modified.file"@ != "content.undeleted.html-document"@) by {
            reveal_strlit("content.modified.file");
            reveal_strlit("content.undeleted.html-document");
            assert("content.modified.file"@.len() == 21);
            assert("content.undeleted.html-document"@.len() == 31);
        }
        assert("content.modified.file"@ != "content.undeleted.folder"@) by {
            reveal_strlit("content.modified.file");
            reveal_strlit("content.undeleted.folder");
            assert("content.modified.file"@.len() == 21);
            assert("content.undeleted.folder"@.len() == 24);
        }
        assert("content.modified.file"@ != "content.deleted.file"@) by {
            reveal_strlit("content.modified.file");
            reveal_strlit("content.deleted.file");
            assert("content.modified.file"@.len() == 21);
            assert("content.deleted.file"@.len() == 20);
        }
        assert("content.modified.file"@ != "content.deleted.html-document"@) by {
            reveal_strlit("content.modified.file");
            reveal_strlit("content.deleted.html-document");
            assert("content.modified.file"@.len() == 21);
            assert("content.deleted.html-document"@.len() == 29);
        }
        assert("content.modified.file"@ != "content.deleted.folder"@) by {
            reveal_strlit("content.modified.file");
            reveal_strlit("content.deleted.folder");
            assert("content.modified.file"@.len() == 21);
            assert("content.deleted.folder"@.len() == 22);
        }
    }
    assert(remote_event_type_named("content.modified.html-document"@) == Some(RemoteEventType::Modified)) by {
        assert("content.modified.html-document"@ != "content.modified.file"@) by {
            reveal_strlit("content.modified.html-document");
            reveal_strlit("content.modified.file");
            assert("content.modified.html-document"@.len() == 30);
            assert("content.modified.file"@.len() == 21);
        }
        assert("content.modified.html-document"@ != "content.modified.folder"@) by {
            reveal_strlit("content.modified.html-document");
            reveal_strlit("content.modified.folder");
            assert("content.modified.html-document"@.len() == 30);
            assert("content.modified.folder"@.len() == 23);
        }
        assert("content.modified.html-document"@ != "content.created.file"@) by {
            reveal_strlit("content.modified.html-document");
            reveal_strlit("content.created.file");
            assert("content.modified.html-document"@.len() == 30);
            assert("content.created.file"@.len() == 20);
        }
        assert("content.modified.html-document"@ != "content.created.html-document"@) by {
            reveal_strlit("content.modified.html-document");
            reveal_strlit("content.created.html-document");
            assert("content.modified.html-document"@.len() == 30);
            assert("content.created.html-document"@.len() == 29);
        }
        assert("content.modified.html-document"@ != "content.created.folder"@) by {
            reveal_strlit("content.modified.html-document");
            reveal_strlit("content.created.folder");
            assert("content.modified.html-document"@.len() == 30);
            assert("content.created.folder"@.len() == 22);
        }
        assert("content.modified.html-document"@ != "content.undeleted.file"@) by {
            reveal_strlit("content.modified.html-document");
            reveal_strlit("content.undeleted.file");
            assert("content.modified.html-document"@.len() == 30);
            assert("content.undeleted.file"@.len() == 22);
        }
        assert("content.modified.html-document"@ != "content.undeleted.html-document"@) by {
            reveal_strlit("content.modified.html-document");
            reveal_strlit("content.undeleted.html-document");
            assert("content.modified.html-document"@.len() == 30);
            assert("content.undeleted.html-document"@.len() == 31);
        }
        assert("content.modified.html-document"@ != "content.undeleted.folder"@) by {
            reveal_strlit("content.modified.html-document");
            reveal_strlit("content.undeleted.folder");
            assert("content.modified.html-document"@.len() == 30);
            assert("content.undeleted.folder"@.len() == 24);
        }
        assert("content.modified.html-document"@ != "content.deleted.file"@) by {
            reveal_strlit("content.modified.html-document");
            reveal_strlit("content.deleted.file");
            assert("content.modified.html-document"@.len() == 30);
            assert("content.deleted.file"@.len() == 20);
        }
        assert("content.modified.html-document"@ != "content.deleted.html-document"@) by {
            reveal_strlit("content.modified.html-document");
            reveal_strlit("content.deleted.html-document");
            assert("content.modified.html-document"@.len() == 30);
            assert("content.deleted.html-document"@.len() == 29);
        }
        assert("content.modified.html-document"@ != "content.deleted.folder"@) by {
            reveal_strlit("content.modified.html-document");
            reveal_strlit("content.deleted.folder");
            assert("content.modified.html-document"@.len() == 30);
            assert("content.deleted.folder"@.len() == 22);
        }
    }
    assert(remote_event_type_named("content.modified.folder"@) == Some(RemoteEventType::Modified)) by {
        assert("content.modified.folder"@ != "content.modified.file"@) by {
            reveal_strlit("content.modified.folder");
            reveal_strlit("content.modified.file");
            assert("content.modified.folder"@.len() == 23);
            assert("content.modified.file"@.len() == 21);
        }
        assert("content.modified.folder"@ != "content.modified.html-document"@) by {
            reveal_strlit("content.modified.folder");
            reveal_strlit("content.modified.html-document");
            assert("content.modified.folder"@.len() == 23);
            assert("content.modified.html-document"@.len() == 30);
        }
        assert("content.modified.folder"@ != "content.created.file"@) by {
            reveal_strlit("content.modified.folder");
            reveal_strlit("content.created.file");
            assert("content.modified.folder"@.len() == 23);
            assert("content.created.file"@.len() == 20);
        }
        assert("content.modified.folder"@ != "content.created.html-document"@) by {
            reveal_strlit("content.modified.folder");
            reveal_strlit("content.created.html-document");
            assert("content.modified.folder"@.len() == 23);
            assert("content.created.html-document"@.len() == 29);
        }
        assert("content.modified.folder"@ != "content.created.folder"@) by {
            reveal_strlit("content.modified.folder");
            reveal_strlit("content.created.folder");
            assert("content.modified.folder"@.len() == 23);
            assert("content.created.folder"@.len() == 22);
        }
        assert("content.modified.folder"@ != "content.undeleted.file"@) by {
            reveal_strlit("content.modified.folder");
            reveal_strlit("content.undeleted.file");
            assert("content.modified.folder"@.len() == 23);
            assert("content.undeleted.file"@.len() == 22);
        }
        assert("content.modified.folder"@ != "content.undeleted.html-document"@) by {
            reveal_strlit("content.modified.folder");
            reveal_strlit("content.undeleted.html-document");
            assert("content.modified.folder"@.len() == 23);
            assert("content.undeleted.html-document"@.len() == 31);
        }
        assert("content.modified.folder"@ != "content.undeleted.folder"@) by {
            reveal_strlit("content.modified.folder");
            reveal_strlit("content.undeleted.folder");
            assert("content.modified.folder"@.len() == 23);
            assert("content.undeleted.folder"@.len() == 24);
        }
        assert("content.modified.folder"@ != "content.deleted.file"@) by {
            reveal_strlit("content.modified.folder");
            reveal_strlit("content.deleted.file");
            assert("content.modified.folder"@.len() == 23);
            assert("content.deleted.file"@.len() == 20);
        }
        assert("content.modified.folder"@ != "content.deleted.html-document"@) by {
            reveal_strlit("content.modified.folder");
            reveal_strlit("content.deleted.html-document");
            assert("content.modified.folder"@.len() == 23);
            assert("content.deleted.html-document"@.len() == 29);
        }
        assert("content.modified.folder"@ != "content.deleted.folder"@) by {
            reveal_strlit("content.modified.folder");
            reveal_strlit("content.deleted.folder");
            assert("content.modified.folder"@.len() == 23);
            assert("content.deleted.folder"@.len() == 22);
        }
    }
    assert(remote_event_type_named("content.created.file"@) == Some(RemoteEventType::Created)) by {
        assert("content.created.file"@ != "content.modified.file"@) by {
            reveal_strlit("content.created.file");
            reveal_strlit("content.modified.file");
            assert("content.created.file"@.len() == 20);
            assert("content.modified.file"@.len() == 21);
        }
        assert("content.created.file"@ != "content.modified.html-document"@) by {
            reveal_strlit("content.created.file");
            reveal_strlit("content.modified.html-document");
            assert("content.created.file"@.len() == 20);
            assert("content.modified.html-document"@.len() == 30);
        }
        assert("content.created.file"@ != "content.modified.folder"@) by {
            reveal_strlit("content.created.file");
            reveal_strlit("content.modified.folder");
            assert("content.created.file"@.len() == 20);
            assert("content.modified.folder"@.len() == 23);
        }
        assert("content.created.file"@ != "content.created.html-document"@) by {
            reveal_strlit("content.created.file");
            reveal_strlit("content.created.html-document");
            assert("content.created.file"@.len() == 20);
            assert("content.created.html-document"@.len() == 29);
        }
        assert("content.created.file"@ != "content.created.folder"@) by {
            reveal_strlit("content.created.file");
            reveal_strlit("content.created.folder");
            assert("content.created.file"@.len() == 20);
            assert("content.created.folder"@.len() == 22);
        }
        assert("content.created.file"@ != "content.undeleted.file"@) by {
            reveal_strlit("content.created.file");
            reveal_strlit("content.undeleted.file");
            assert("content.created.file"@.len() == 20);
            assert("content.undeleted.file"@.len() == 22);
        }
        assert("content.created.file"@ != "content.undeleted.html-document"@) by {
            reveal_strlit("content.created.file");
            reveal_strlit("content.undeleted.html-document");
            assert("content.created.file"@.len() == 20);
            assert("content.undeleted.html-document"@.len() == 31);
        }
        assert("content.created.file"@ != "content.undeleted.folder"@) by {
            reveal_strlit("content.created.file");
            reveal_strlit("content.undeleted.folder");
            assert("content.created.file"@.len() == 20);
            assert("content.undeleted.folder"@.len() == 24);
        }
        assert("content.created.file"@ != "content.deleted.file"@) by {
            reveal_strlit("content.created.file");
            reveal_strlit("content.deleted.file");
            assert("content.created.file"@[8] != "content.deleted.file"@[8]);
        }
        assert("content.created.file"@ != "content.deleted.html-document"@) by {
            reveal_strlit("content.created.file");
            reveal_strlit("content.deleted.html-document");
            assert("content.created.file"@.len() == 20);
            assert("content.deleted.html-document"@.len() == 29);
        }
        assert("content.created.file"@ != "content.deleted.folder"@) by {
            reveal_strlit("content.created.file");
            reveal_strlit("content.deleted.folder");
            assert("content.created.file"@.len() == 20);
            assert("content.deleted.folder"@.len() == 22);
        }
    }
    assert(remote_event_type_named("content.created.html-document"@) == Some(RemoteEventType::Created)) by {
        assert("content.created.html-document"@ != "content.modified.file"@) by {
            reveal_strlit("content.created.html-document");
            reveal_strlit("content.modified.file");
            assert("content.created.html-document"@.len() == 29);
            assert("content.modified.file"@.len() == 21);
        }
        assert("content.created.html-document"@ != "content.modified.html-document"@) by {
            reveal_strlit("content.created.html-document");
            reveal_strlit("content.modified.html-document");
            assert("content.created.html-document"@.len() == 29);
            assert("content.modified.html-document"@.len() == 30);
        }
        assert("content.created.html-document"@ != "content.modified.folder"@) by {
            reveal_strlit("content.created.html-document");
            reveal_strlit("content.modified.folder");
            assert("content.created.html-document"@.len() == 29);
            assert("content.modified.folder"@.len() == 23);
        }
        assert("content.created.html-document"@ != "content.created.file"@) by {
            reveal_strlit("content.created.html-document");
            reveal_strlit("content.created.file");
            assert("content.created.html-document"@.len() == 29);
            assert("content.created.file"@.len() == 20);
        }
        assert("content.created.html-document"@ != "content.created.folder"@) by {
            reveal_strlit("content.created.html-document");
            reveal_strlit("content.created.folder");
            assert("content.created.html-document"@.len() == 29);
            assert("content.created.folder"@.len() == 22);
        }
        assert("content.created.html-document"@ != "content.undeleted.file"@) by {
            reveal_strlit("content.created.html-document");
            reveal_strlit("content.undeleted.file");
            assert("content.created.html-document"@.len() == 29);
            assert("content.undeleted.file"@.len() == 22);
        }
        assert("content.created.html-document"@ != "content.undeleted.html-document"@) by {
            reveal_strlit("content.created.html-document");
            reveal_strlit("content.undeleted.html-document");
            assert("content.created.html-document"@.len() == 29);
            assert("content.undeleted.html-document"@.len() == 31);
        }
        assert("content.created.html-document"@ != "content.undeleted.folder"@) by {
            reveal_strlit("content.created.html-document");
            reveal_strlit("content.undeleted.folder");
            assert("content.created.html-document"@.len() == 29);
            assert("content.undeleted.folder"@.len() == 24);
        }
        assert("content.created.html-document"@ != "content.deleted.file"@) by {
            reveal_strlit("content.created.html-document");
            reveal_strlit("content.deleted.file");
            assert("content.created.html-document"@.len() == 29);
            assert("content.deleted.file"@.len() == 20);
        }
        assert("content.created.html-document"@ != "content.deleted.html-document"@) by {
            reveal_strlit("content.created.html-document");
            reveal_strlit("content.deleted.html-document");
            assert("content.created.html-document"@[8] != "content.deleted.html-document"@[8]);
        }
        assert("content.created.html-document"@ != "content.deleted.folder"@) by {
            reveal_strlit("content.created.html-document");
            reveal_strlit("content.deleted.folder");
            assert("content.created.html-document"@.len() == 29);
            assert("content.deleted.folder"@.len() == 22);
        }
    }
    assert(remote_event_type_named("content.created.folder"@) == Some(RemoteEventType::Created)) by {
        assert("content.created.folder"@ != "content.modified.file"@) by {
            reveal_strlit("content.created.folder");
            reveal_strlit("content.modified.file");
            assert("content.created.folder"@.len() == 22);
            assert("content.modified.file"@.len() == 21);
        }
        assert("content.created.folder"@ != "content.modified.html-document"@) by {
            reveal_strlit("content.created.folder");
            reveal_strlit("content.modified.html-document");
            assert("content.created.folder"@.len() == 22);
            assert("content.modified.html-document"@.len() == 30);
        }
        assert("content.created.folder"@ != "content.modified.folder"@) by {
            reveal_strlit("content.created.folder");
            reveal_strlit("content.modified.folder");
            assert("content.created.folder"@.len() == 22);
            assert("content.modified.folder"@.len() == 23);
        }
        assert("content.created.folder"@ != "content.created.file"@) by {
            reveal_strlit("content.created.folder");
            reveal_strlit("content.created.file");
            assert("content.created.folder"@.len() == 22);
            assert("content.created.file"@.len() == 20);
        }
        assert("content.created.folder"@ != "content.created.html-document"@) by {
            reveal_strlit("content.created.folder");
            reveal_strlit("content.created.html-document");
            assert("content.created.folder"@.len() == 22);
            assert("content.created.html-document"@.len() == 29);
        }
        assert("content.created.folder"@ != "content.undeleted.file"@) by {
            reveal_strlit("content.created.folder");
            reveal_strlit("content.undeleted.file");
            assert("content.created.folder"@[8] != "content.undeleted.file"@[8]);
        }
        assert("content.created.folder"@ != "content.undeleted.html-document"@) by {
            reveal_strlit("content.created.folder");
            reveal_strlit("content.undeleted.html-document");
            assert("content.created.folder"@.len() == 22);
            assert("content.undeleted.html-document"@.len() == 31);
        }
        assert("content.created.folder"@ != "content.undeleted.folder"@) by {
            reveal_strlit("content.created.folder");
            reveal_strlit("content.undeleted.folder");
            assert("content.created.folder"@.len() == 22);
            assert("content.undeleted.folder"@.len() == 24);
        }
        assert("content.created.folder"@ != "content.deleted.file"@) by {
            reveal_strlit("content.created.folder");
            reveal_strlit("content.deleted.file");
            assert("content.created.folder"@.len() == 22);
            assert("content.deleted.file"@.len() == 20);
        }
        assert("content.created.folder"@ != "content.deleted.html-document"@) by {
            reveal_strlit("content.created.folder");
            reveal_strlit("content.deleted.html-document");
            assert("content.created.folder"@.len() == 22);
            assert("content.deleted.html-document"@.len() == 29);
        }
        assert("content.created.folder"@ != "content.deleted.folder"@) by {
            reveal_strlit("content.created.folder");
            reveal_strlit("content.deleted.folder");
            assert("content.created.folder"@[8] != "content.deleted.folder"@[8]);
        }
    }
    assert(remote_event_type_named("content.undeleted.file"@) == Some(RemoteEventType::Created)) by {
        assert("content.undeleted.file"@ != "content.modified.file"@) by {
            reveal_strlit("content.undeleted.file");
            reveal_strlit("content.modified.file");
            assert("content.undeleted.file"@.len() == 22);
            assert("content.modified.file"@.len() == 21);
        }
        assert("content.undeleted.file"@ != "content.modified.html-document"@) by {
            reveal_strlit("content.undeleted.file");
            reveal_strlit("content.modified.html-document");
            assert("content.undeleted.file"@.len() == 22);
            assert("content.modified.html-document"@.len() == 30);
        }
        assert("content.undeleted.file"@ != "content.modified.folder"@) by {
            reveal_strlit("content.undeleted.file");
            reveal_strlit("content.modified.folder");
            assert("content.undeleted.file"@.len() == 22);
            assert("content.modified.folder"@.len() == 23);
        }
        assert("content.undeleted.file"@ != "content.created.file"@) by {
            reveal_strlit("content.undeleted.file");
            reveal_strlit("content.created.file");
            assert("content.undeleted.file"@.len() == 22);
            assert("content.created.file"@.len() == 20);
        }
        assert("content.undeleted.file"@ != "content.created.html-document"@) by {
            reveal_strlit("content.undeleted.file");
            reveal_strlit("content.created.html-document");
            assert("content.undeleted.file"@.len() == 22);
            assert("content.created.html-document"@.len() == 29);
        }
        assert("content.undeleted.file"@ != "content.created.folder"@) by {
            reveal_strlit("content.undeleted.file");
            reveal_strlit("content.created.folder");
            assert("content.undeleted.file"@[8] != "content.created.folder"@[8]);
        }
        assert("content.undeleted.file"@ != "content.undeleted.html-document"@) by {
            reveal_strlit("content.undeleted.file");
            reveal_strlit("content.undeleted.html-document");
            assert("content.undeleted.file"@.len() == 22);
            assert("content.undeleted.html-document"@.len() == 31);
        }
        assert("content.undeleted.file"@ != "content.undeleted.folder"@) by {
            reveal_strlit("content.undeleted.file");
            reveal_strlit("content.undeleted.folder");
            assert("content.undeleted.file"@.len() == 22);
            assert("content.undeleted.folder"@.len() == 24);
        }
        assert("content.undeleted.file"@ != "content.deleted.file"@) by {
            reveal_strlit("content.undeleted.file");
            reveal_strlit("content.deleted.file");
            assert("content.undeleted.file"@.len() == 22);
            assert("content.deleted.file"@.len() == 20);
        }
        assert("content.undeleted.file"@ != "content.deleted.html-document"@) by {
            reveal_strlit("content.undeleted.file");
            reveal_strlit("content.deleted.html-document");
            assert("content.undeleted.file"@.len() == 22);
            assert("content.deleted.html-document"@.len() == 29);
        }
        assert("content.undeleted.file"@ != "content.deleted.folder"@) by {
            reveal_strlit("content.undeleted.file");
            reveal_strlit("content.deleted.folder");
            assert("content.undeleted.file"@[8] != "content.deleted.folder"@[8]);
        }
    }
    assert(remote_event_type_named("content.undeleted.html-document"@) == Some(RemoteEventType::Created)) by {
        assert("content.undeleted.html-document"@ != "content.modified.file"@) by {
            reveal_strlit("content.undeleted.html-document");
            reveal_strlit("content.modified.file");
            assert("content.undeleted.html-document"@.len() == 31);
            assert("content.modified.file"@.len() == 21);
        }
        assert("content.undeleted.html-document"@ != "content.modified.html-document"@) by {
            reveal_strlit("content.undeleted.html-document");
            reveal_strlit("content.modified.html-document");
            assert("content.undeleted.html-document"@.len() == 31);
            assert("content.modified.html-document"@.len() == 30);
        }
        assert("content.undeleted.html-document"@ != "content.modified.folder"@) by {
            reveal_strlit("content.undeleted.html-document");
            reveal_strlit("content.modified.folder");
            assert("content.undeleted.html-document"@.len() == 31);
            assert("content.modified.folder"@.len() == 23);
        }
        assert("content.undeleted.html-document"@ != "content.created.file"@) by {
            reveal_strlit("content.undeleted.html-document");
            reveal_strlit("content.created.file");
            assert("content.undeleted.html-document"@.len() == 31);
            assert("content.created.file"@.len() == 20);
        }
        assert("content.undeleted.html-document"@ != "content.created.html-document"@) by {
            reveal_strlit("content.undeleted.html-document");
            reveal_strlit("content.created.html-document");
            assert("content.undeleted.html-document"@.len() == 31);
            assert("content.created.html-document"@.len() == 29);
        }
        assert("content.undeleted.html-document"@ != "content.created.folder"@) by {
            reveal_strlit("content.undeleted.html-document");
            reveal_strlit("content.created.folder");
            assert("content.undeleted.html-document"@.len() == 31);
            assert("content.created.folder"@.len() == 22);
        }
        assert("content.undeleted.html-document"@ != "content.undeleted.file"@) by {
            reveal_strlit("content.undeleted.html-document");
            reveal_strlit("content.undeleted.file");
            assert("content.undeleted.html-document"@.len() == 31);
            assert("content.undeleted.file"@.len() == 22);
        }
        assert("content.undeleted.html-document"@ != "content.undeleted.folder"@) by {
            reveal_strlit("content.undeleted.html-document");
            reveal_strlit("content.undeleted.folder");
            assert("content.undeleted.html-document"@.len() == 31);
            assert("content.undeleted.folder"@.len() == 24);
        }
        assert("content.undeleted.html-document"@ != "content.deleted.file"@) by {
            reveal_strlit("content.undeleted.html-document");
            reveal_strlit("content.deleted.file");
            assert("content.undeleted.html-document"@.len() == 31);
            assert("content.deleted.file"@.len() == 20);
        }
        assert("content.undeleted.html-document"@ != "content.deleted.html-document"@) by {
            reveal_strlit("content.undeleted.html-document");
            reveal_strlit("content.deleted.html-document");
            assert("content.undeleted.html-document"@.len() == 31);
            assert("content.deleted.html-document"@.len() == 29);
        }
        assert("content.undeleted.html-document"@ != "content.deleted.folder"@) by {
            reveal_strlit("content.undeleted.html-document");
            reveal_strlit("content.deleted.folder");
            assert("content.undeleted.html-document"@.len() == 31);
            assert("content.deleted.folder"@.len() == 22);
        }
    }
    assert(remote_event_type_named("content.undeleted.folder"@) == Some(RemoteEventType::Created)) by {
        assert("content.undeleted.folder"@ != "content.modified.file"@) by {
            reveal_strlit("content.undeleted.folder");
            reveal_strlit("content.modified.file");
            assert("content.undeleted.folder"@.len() == 24);
            assert("content.modified.file"@.len() == 21);
        }
        assert("content.undeleted.folder"@ != "content.modified.html-document"@) by {
            reveal_strlit("content.undeleted.folder");
            reveal_strlit("content.modified.html-document");
            assert("content.undeleted.folder"@.len() == 24);
            assert("content.modified.html-document"@.len() == 30);
        }
        assert("content.undeleted.folder"@ != "content.modified.folder"@) by {
            reveal_strlit("content.undeleted.folder");
            reveal_strlit("content.modified.folder");
            assert("content.undeleted.folder"@.len() == 24);
            assert("content.modified.folder"@.len() == 23);
        }
        assert("content.undeleted.folder"@ != "content.created.file"@) by {
            reveal_strlit("content.undeleted.folder");
            reveal_strlit("content.created.file");
            assert("content.undeleted.folder"@.len() == 24);
            assert("content.created.file"@.len() == 20);
        }
        assert("content.undeleted.folder"@ != "content.created.html-document"@) by {
            reveal_strlit("content.undeleted.folder");
            reveal_strlit("content.created.html-document");
            assert("content.undeleted.folder"@.len() == 24);
            assert("content.created.html-document"@.len() == 29);
        }
        assert("content.undeleted.folder"@ != "content.created.folder"@) by {
            reveal_strlit("content.undeleted.folder");
            reveal_strlit("content.created.folder");
            assert("content.undeleted.folder"@.len() == 24);
            assert("content.created.folder"@.len() == 22);
        }
        assert("content.undeleted.folder"@ != "content.undeleted.file"@) by {
            reveal_strlit("content.undeleted.folder");
            reveal_strlit("content.undeleted.file");
            assert("content.undeleted.folder"@.len() == 24);
            assert("content.undeleted.file"@.len() == 22);
        }
        assert("content.undeleted.folder"@ != "content.undeleted.html-document"@) by {
            reveal_strlit("content.undeleted.folder");
            reveal_strlit("content.undeleted.html-document");
            assert("content.undeleted.folder"@.len() == 24);
            assert("content.undeleted.html-document"@.len() == 31);
        }
        assert("content.undeleted.folder"@ != "content.deleted.file"@) by {
            reveal_strlit("content.undeleted.folder");
            reveal_strlit("content.deleted.file");
            assert("content.undeleted.folder"@.len() == 24);
            assert("content.deleted.file"@.len() == 20);
        }
        assert("content.undeleted.folder"@ != "content.deleted.html-document"@) by {
            reveal_strlit("content.undeleted.folder");
            reveal_strlit("content.deleted.html-document");
            assert("content.undeleted.folder"@.len() == 24);
            assert("content.deleted.html-document"@.len() == 29);
        }
        assert("content.undeleted.folder"@ != "content.deleted.folder"@) by {
            reveal_strlit("content.undeleted.folder");
            reveal_strlit("content.deleted.folder");
            assert("content.undeleted.folder"@.len() == 24);
            assert("content.deleted.folder"@.len() == 22);
        }
    }
    assert(remote_event_type_named("content.deleted.file"@) == Some(RemoteEventType::Deleted)) by {
        assert("content.deleted.file"@ != "content.modified.file"@) by {
            reveal_strlit("content.deleted.file");
            reveal_strlit("content.modified.file");
            assert("content.deleted.file"@.len() == 20);
            assert("content.modified.file"@.len() == 21);
        }
        assert("content.deleted.file"@ != "content.modified.html-document"@) by {
            reveal_strlit("content.deleted.file");
            reveal_strlit("content.modified.html-document");
            assert("content.deleted.file"@.len() == 20);
            assert("content.modified.html-document"@.len() == 30);
        }
        assert("content.deleted.file"@ != "content.modified.folder"@) by {
            reveal_strlit("content.deleted.file");
            reveal_strlit("content.modified.folder");
            assert("content.deleted.file"@.len() == 20);
            assert("content.modified.folder"@.len() == 23);
        }
        assert("content.deleted.file"@ != "content.created.file"@) by {
            reveal_strlit("content.deleted.file");
            reveal_strlit("content.created.file");
            assert("content.deleted.file"@[8] != "content.created.file"@[8]);
        }
        assert("content.deleted.file"@ != "content.created.html-document"@) by {
            reveal_strlit("content.deleted.file");
            reveal_strlit("content.created.html-document");
            assert("content.deleted.file"@.len() == 20);
            assert("content.created.html-document"@.len() == 29);
        }
        assert("content.deleted.file"@ != "content.created.folder"@) by {
            reveal_strlit("content.deleted.file");
            reveal_strlit("content.created.folder");
            assert("content.deleted.file"@.len() == 20);
            assert("content.created.folder"@.len() == 22);
        }
        assert("content.deleted.file"@ != "content.undeleted.file"@) by {
            reveal_strlit("content.deleted.file");
            reveal_strlit("content.undeleted.file");
            assert("content.deleted.file"@.len() == 20);
            assert("content.undeleted.file"@.len() == 22);
        }
        assert("content.deleted.file"@ != "content.undeleted.html-document"@) by {
            reveal_strlit("content.deleted.file");
            reveal_strlit("content.undeleted.html-document");
            assert("content.deleted.file"@.len() == 20);
            assert("content.undeleted.html-document"@.len() == 31);
        }
        assert("content.deleted.file"@ != "content.undeleted.folder"@) by {
            reveal_strlit("content.deleted.file");
            reveal_strlit("content.undeleted.folder");
            assert("content.deleted.file"@.len() == 20);
            assert("content.undeleted.folder"@.len() == 24);
        }
        assert("content.deleted.file"@ != "content.deleted.html-document"@) by {
            reveal_strlit("content.deleted.file");
            reveal_strlit("content.deleted.html-document");
            assert("content.deleted.file"@.len() == 20);
            assert("content.deleted.html-document"@.len() == 29);
        }
        assert("content.deleted.file"@ != "content.deleted.folder"@) by {
            reveal_strlit("content.deleted.file");
            reveal_strlit("content.deleted.folder");
            assert("content.deleted.file"@.len() == 20);
            assert("content.deleted.folder"@.len() == 22);
        }
    }
    assert(remote_event_type_named("content.deleted.html-document"@) == Some(RemoteEventType::Deleted)) by {
        assert("content.deleted.html-document"@ != "content.modified.file"@) by {
            reveal_strlit("content.deleted.html-document");
            reveal_strlit("content.modified.file");
            assert("content.deleted.html-document"@.len() == 29);
            assert("content.modified.file"@.len() == 21);
        }
        assert("content.deleted.html-document"@ != "content.modified.html-document"@) by {
            reveal_strlit("content.deleted.html-document");
            reveal_strlit("content.modified.html-document");
            assert("content.deleted.html-document"@.len() == 29);
            assert("content.modified.html-document"@.len() == 30);
        }
        assert("content.deleted.html-document"@ != "content.modified.folder"@) by {
            reveal_strlit("content.deleted.html-document");
            reveal_strlit("content.modified.folder");
            assert("content.deleted.html-document"@.len() == 29);
            assert("content.modified.folder"@.len() == 23);
        }
        assert("content.deleted.html-document"@ != "content.created.file"@) by {
            reveal_strlit("content.deleted.html-document");
            reveal_strlit("content.created.file");
            assert("content.deleted.html-document"@.len() == 29);
            assert("content.created.file"@.len() == 20);
        }
        assert("content.deleted.html-document"@ != "content.created.html-document"@) by {
            reveal_strlit("content.deleted.html-document");
            reveal_strlit("content.created.html-document");
            assert("content.deleted.html-document"@[8] != "content.created.html-document"@[8]);
        }
        assert("content.deleted.html-document"@ != "content.created.folder"@) by {
            reveal_strlit("content.deleted.html-document");
            reveal_strlit("content.created.folder");
            assert("content.deleted.html-document"@.len() == 29);
            assert("content.created.folder"@.len() == 22);
        }
        assert("content.deleted.html-document"@ != "content.undeleted.file"@) by {
            reveal_strlit("content.deleted.html-document");
            reveal_strlit("content.undeleted.file");
            assert("content.deleted.html-document"@.len() == 29);
            assert("content.undeleted.file"@.len() == 22);
        }
        assert("content.deleted.html-document"@ != "content.undeleted.html-document"@) by {
            reveal_strlit("content.deleted.html-document");
            reveal_strlit("content.undeleted.html-document");
            assert("content.deleted.html-document"@.len() == 29);
            assert("content.undeleted.html-document"@.len() == 31);
        }
        assert("content.deleted.html-document"@ != "content.undeleted.folder"@) by {
            reveal_strlit("content.deleted.html-document");
            reveal_strlit("content.undeleted.folder");
            assert("content.deleted.html-document"@.len() == 29);
            assert("content.undeleted.folder"@.len() == 24);
        }
        assert("content.deleted.html-document"@ != "content.deleted.file"@) by {
            reveal_strlit("content.deleted.html-document");
            reveal_strlit("content.deleted.file");
            assert("content.deleted.html-document"@.len() == 29);
            assert("content.deleted.file"@.len() == 20);
        }
        assert("content.deleted.html-document"@ != "content.deleted.folder"@) by {
            reveal_strlit("content.deleted.html-document");
            reveal_strlit("content.deleted.folder");
            assert("content.deleted.html-document"@.len() == 29);
            assert("content.deleted.folder"@.len() == 22);
        }
    }
    assert(remote_event_type_named("content.deleted.folder"@) == Some(RemoteEventType::Deleted)) by {
        assert("content.deleted.folder"@ != "content.modified.file"@) by {
            reveal_strlit("content.deleted.folder");
            reveal_strlit("content.modified.file");
            assert("content.deleted.folder"@.len() == 22);
            assert("content.modified.file"@.len() == 21);
        }
        assert("content.deleted.folder"@ != "content.modified.html-document"@) by {
            reveal_strlit("content.deleted.folder");
            reveal_strlit("content.modified.html-document");
            assert("content.deleted.folder"@.len() == 22);
            assert("content.modified.html-document"@.len() == 30);
        }
        assert("content.deleted.folder"@ != "content.modified.folder"@) by {
            reveal_strlit("content.deleted.folder");
            reveal_strlit("content.modified.folder");
            assert("content.deleted.folder"@.len() == 22);
            assert("content.modified.folder"@.len() == 23);
        }
        assert("content.deleted.folder"@ != "content.created.file"@) by {
            reveal_strlit("content.deleted.folder");
            reveal_strlit("content.created.file");
            assert("content.deleted.folder"@.len() == 22);
            assert("content.created.file"@.len() == 20);
        }
        assert("content.deleted.folder"@ != "content.created.html-document"@) by {
            reveal_strlit("content.deleted.folder");
            reveal_strlit("content.created.html-document");
            assert("content.deleted.folder"@.len() == 22);
            assert("content.created.html-document"@.len() == 29);
        }
        assert("content.deleted.folder"@ != "content.created.folder"@) by {
            reveal_strlit("content.deleted.folder");
            reveal_strlit("content.created.folder");
            assert("content.deleted.folder"@[8] != "content.created.folder"@[8]);
        }
        assert("content.deleted.folder"@ != "content.undeleted.file"@) by {
            reveal_strlit("content.deleted.folder");
            reveal_strlit("content.undeleted.file");
            assert("content.deleted.folder"@[8] != "content.undeleted.file"@[8]);
        }
        assert("content.deleted.folder"@ != "content.undeleted.html-document"@) by {
            reveal_strlit("content.deleted.folder");
            reveal_strlit("content.undeleted.html-document");
            assert("content.deleted.folder"@.len() == 22);
            assert("content.undeleted.html-document"@.len() == 31);
        }
        assert("content.deleted.folder"@ != "content.undeleted.folder"@) by {
            reveal_strlit("content.deleted.folder");
            reveal_strlit("content.undeleted.folder");
            assert("content.deleted.folder"@.len() == 22);
            assert("content.undeleted.folder"@.len() == 24);
        }
        assert("content.deleted.folder"@ != "content.deleted.file"@) by {
            reveal_strlit("content.deleted.folder");
            reveal_strlit("content.deleted.file");
            assert("content.deleted.folder"@.len() == 22);
            assert("content.deleted.file"@.len() == 20);
        }
        assert("content.deleted.folder"@ != "content.deleted.html-document"@) by {
            reveal_strlit("content.deleted.folder");
            reveal_strlit("content.deleted.html-document");
            assert("content.deleted.folder"@.len() == 22);
            assert("content.deleted.html-document"@.len() == 29);
        }
    }
}

/// Every content event of every content type is recognised with the kind its
/// action announces: a modification as a modification, a creation or a
/// restoration (undeletion) as a creation, a deletion as a deletion.
pub proof fn law_content_events_recognised(content_type: ContentType)
    ensures
        remote_event_type_named(content_event_name("modified"@, content_type)) == Some(RemoteEventType::Modified),
        remote_event_type_named(content_event_name("created"@, content_type)) == Some(RemoteEventType::Created),
        remote_event_type_named(content_event_name("undeleted"@, content_type)) == Some(RemoteEventType::Created),
        remote_event_type_named(content_event_name("deleted"@, content_type)) == Some(RemoteEventType::Deleted),
{
    lemma_event_names();
    lemma_event_kinds();
}

/// Nothing but a content event of a content type is recognised: a recognised
/// name is `content.<action>.<content type>` for one of the four actions.
pub proof fn law_only_content_events_recognised(name: Seq<char>)
    requires
        remote_event_type_named(name) is Some,
    ensures
        exists|action: Seq<char>, content_type: ContentType|
            (action == "modified"@ || action == "created"@ || action == "undeleted"@ || action == "deleted"@)
                && name == #[trigger] content_event_name(action, content_type),
{
    lemma_event_names();
    if name == "content.modified.file"@ {
        assert(name == content_event_name("modified"@, ContentType::File));
    }
    if name == "content.modified.html-document"@ {
        assert(name == content_event_name("modified"@, ContentType::HtmlDocument));
    }
    if name == "content.modified.folder"@ {
        assert(name == content_event_name("modified"@, ContentType::Folder));
    }
    if name == "content.created.file"@ {
        assert(name == content_event_name("created"@, ContentType::File));
    }
    if name == "content.created.html-document"@ {
        assert(name == content_event_name("created"@, ContentType::HtmlDocument));
    }
    if name == "content.created.folder"@ {
        assert(name == content_event_name("created"@, ContentType::Folder));
    }
    if name == "content.undeleted.file"@ {
        assert(name == content_event_name("undeleted"@, ContentType::File));
    }
    if name == "content.undeleted.html-document"@ {
        assert(name == content_event_name("undeleted"@, ContentType::HtmlDocument));
    }
    if name == "content.undeleted.folder"@ {
        assert(name == content_event_name("undeleted"@, ContentType::Folder));
    }
    if name == "content.deleted.file"@ {
        assert(name == content_event_name("deleted"@, ContentType::File));
    }
    if name == "content.deleted.html-document"@ {
        assert(name == content_event_name("deleted"@, ContentType::HtmlDocument));
    }
    if name == "content.deleted.folder"@ {
        assert(name == content_event_name("deleted"@, ContentType::Folder));
    }
}

} // verus!
