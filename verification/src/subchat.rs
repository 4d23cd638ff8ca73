//! Branch sub-chats: a branch may open at most three sub-chats per task, each
//! run by a single-use orphan worker that cannot open sub-chats of its own.
use vstd::prelude::*;

use crate::protocol::{ContextQuery, ContextResponse, SubChatOpenRequest, SubChatResult};
use crate::text::{decimal, decimal_chars, owned, push_chars, push_str, string_from_chars};

verus! {

#[derive(Debug, Clone, Copy, PartialEq, Eq, Structural)]
pub enum BranchName {
    A,
    B,
}

impl BranchName {
    pub open spec fn label_spec(self) -> Seq<char> {
        match self {
            BranchName::A => "A"@,
            BranchName::B => "B"@,
        }
    }

    /// The name as printed in sub-chat results.
    pub fn label(&self) -> (r: &'static str)
        ensures
            r@ == self.label_spec(),
    {
        match self {
            BranchName::A => "A",
            BranchName::B => "B",
        }
    }
}

/// The number of sub-chats a branch may open for one task.
pub const SUB_CHAT_LIMIT: usize = 3;

#[derive(Debug, Clone, PartialEq, Eq)]
pub struct Branch {
    pub name: BranchName,
    pub task_id: String,
    pub sub_chat_counter: usize,
    pub master_message: String,
}

#[derive(Debug, Clone, PartialEq, Eq)]
pub enum SubChatError {
    SubChatLimitExceeded { task_id: String },
    InvalidTaskId(String),
    BranchUnavailable { branch: String },
    Orphan(String),
}

#[derive(Debug, Clone, PartialEq, Eq)]
pub enum OrphanError {
    SubChatNotAllowed,
    Run(String),
}

/// The prompt handed to the orphan worker: the master message, a newline and
/// the prompt when the branch has a master message; the prompt alone
/// otherwise.
pub open spec fn merged_prompt(master: Seq<char>, prompt: Seq<char>) -> Seq<char> {
    if master.len() > 0 {
        master + seq!['\n'] + prompt
    } else {
        prompt
    }
}

/// The text of a completed sub-chat.
pub open spec fn sub_chat_text(name: BranchName, call_index: nat, message: Seq<char>) -> Seq<char> {
    "branch "@ + name.label_spec() + " completed sub-chat "@ + decimal(call_index) + ": "@
        + message
}

impl Branch {
    pub fn new(name: BranchName, task_id: String) -> (b: Branch)
        ensures
            b.name == name,
            b.task_id == task_id,
            b.sub_chat_counter == 0,
            b.master_message@.len() == 0,
    {
        Branch { name, task_id, sub_chat_counter: 0, master_message: String::new() }
    }

    pub fn with_master_message(self, master_message: String) -> (b: Branch)
        ensures
            b.name == self.name,
            b.task_id == self.task_id,
            b.sub_chat_counter == self.sub_chat_counter,
            b.master_message == master_message,
    {
        Branch { master_message, ..self }
    }

    pub fn sub_chat_limit(&self) -> (n: usize)
        ensures
            n == SUB_CHAT_LIMIT,
    {
        SUB_CHAT_LIMIT
    }

    /// The maestro's answer to a context query: include the master context
    /// exactly when there is one.
    fn await_maestro(&self, query: &ContextQuery) -> (r: ContextResponse)
        ensures
            r.task_id == query.task_id,
            r.include_master_context == (self.master_message@.len() > 0),
    {
        ContextResponse {
            task_id: query.task_id.clone(),
            include_master_context: !self.master_message.as_str().is_empty(),
        }
    }

    /// Opens a sub-chat for `request`. A request for another task is refused,
    /// as is one past the limit; both leave the branch unchanged. Otherwise
    /// the counter advances and the result carries the previous count as its
    /// call index.
    pub fn open_sub_chat(&mut self, request: &SubChatOpenRequest) -> (r: Result<
        SubChatResult,
        SubChatError,
    >)
        ensures
            request.task_id@ != old(self).task_id@ ==> *final(self) == *old(self) && r
                == Err::<SubChatResult, SubChatError>(
                SubChatError::InvalidTaskId(request.task_id),
            ),
            request.task_id@ == old(self).task_id@ && old(self).sub_chat_counter >= SUB_CHAT_LIMIT
                ==> *final(self) == *old(self) && r == Err::<SubChatResult, SubChatError>(
                SubChatError::SubChatLimitExceeded { task_id: old(self).task_id },
            ),
            request.task_id@ == old(self).task_id@ && old(self).sub_chat_counter < SUB_CHAT_LIMIT
                ==> {
                &&& final(self).name == old(self).name
                &&& final(self).task_id == old(self).task_id
                &&& final(self).master_message == old(self).master_message
                &&& final(self).sub_chat_counter == old(self).sub_chat_counter + 1
                &&& r matches Ok(res) && res.task_id@ == old(self).task_id@ && res.call_index
                    == old(self).sub_chat_counter && res.status@ == "success"@ && res.result@
                    == sub_chat_text(
                    old(self).name,
                    old(self).sub_chat_counter as nat,
                    merged_prompt(old(self).master_message@, request.prompt@),
                )
            },
            old(self).sub_chat_counter <= SUB_CHAT_LIMIT ==> final(self).sub_chat_counter
                <= SUB_CHAT_LIMIT,
    {
        if request.task_id != self.task_id {
            return Err(SubChatError::InvalidTaskId(request.task_id.clone()));
        }
        if self.sub_chat_counter >= self.sub_chat_limit() {
            return Err(SubChatError::SubChatLimitExceeded { task_id: self.task_id.clone() });
        }
        self.sub_chat_counter = self.sub_chat_counter + 1;

        let context_query = ContextQuery { task_id: self.task_id.clone() };
        let context_response = self.await_maestro(&context_query);

        let mut message: Vec<char> = Vec::new();
        if context_response.include_master_context {
            push_str(&mut message, self.master_message.as_str());
            message.push('\n');
        }
        push_str(&mut message, request.prompt.as_str());
        assert(message@ =~= merged_prompt(self.master_message@, request.prompt@));

        let mut worker = OrphanWorker::new(string_from_chars(&message));
        let orphan_result = match worker.run() {
            Ok(res) => res,
            Err(OrphanError::Run(msg)) => {
                return Err(SubChatError::Orphan(msg));
            },
            Err(OrphanError::SubChatNotAllowed) => {
                return Err(SubChatError::Orphan(owned("sub-chat not allowed")));
            },
        };

        let call_index = (self.sub_chat_counter - 1) as u8;
        let mut text: Vec<char> = Vec::new();
        push_str(&mut text, "branch ");
        push_str(&mut text, self.name.label());
        push_str(&mut text, " completed sub-chat ");
        let digits = decimal_chars(call_index as u64);
        push_chars(&mut text, &digits);
        push_str(&mut text, ": ");
        push_str(&mut text, orphan_result.result.as_str());
        assert(text@ =~= sub_chat_text(
            self.name,
            call_index as nat,
            merged_prompt(self.master_message@, request.prompt@),
        ));

        Ok(
            SubChatResult {
                task_id: self.task_id.clone(),
                result: string_from_chars(&text),
                status: orphan_result.status,
                call_index,
            },
        )
    }

    pub fn can_open_more(&self) -> (b: bool)
        ensures
            b == (self.sub_chat_counter < SUB_CHAT_LIMIT),
    {
        self.sub_chat_counter < self.sub_chat_limit()
    }
}

/// A single-use worker that answers one sub-chat prompt.
#[derive(Debug)]
pub struct OrphanWorker {
    context: String,
    executed: bool,
}

impl OrphanWorker {
    pub closed spec fn context_spec(self) -> Seq<char> {
        self.context@
    }

    pub closed spec fn has_run(self) -> bool {
        self.executed
    }

    pub fn new(context: String) -> (w: OrphanWorker)
        ensures
            w.context_spec() == context@,
            !w.has_run(),
    {
        OrphanWorker { context, executed: false }
    }

    /// Runs the worker: the first run answers with its context; every later
    /// run fails.
    pub fn run(&mut self) -> (r: Result<SubChatResult, OrphanError>)
        ensures
            final(self).has_run(),
            final(self).context_spec() == old(self).context_spec(),
            old(self).has_run() ==> (r matches Err(OrphanError::Run(m)) && m@
                == "worker already executed once"@),
            !old(self).has_run() ==> (r matches Ok(res) && res.task_id@ == "orphan-task"@
                && res.result@ == old(self).context_spec() && res.status@ == "success"@
                && res.call_index == 0),
    {
        if self.executed {
            return Err(OrphanError::Run(owned("worker already executed once")));
        }
        self.executed = true;
        Ok(
            SubChatResult {
                task_id: owned("orphan-task"),
                result: self.context.clone(),
                status: owned("success"),
                call_index: 0,
            },
        )
    }

    /// An orphan worker never opens sub-chats of its own.
    pub fn request_sub_chat(&self, request: &SubChatOpenRequest) -> (r: Result<
        SubChatResult,
        OrphanError,
    >)
        ensures
            r == Err::<SubChatResult, OrphanError>(OrphanError::SubChatNotAllowed),
    {
        Err(OrphanError::SubChatNotAllowed)
    }
}

} // verus!
