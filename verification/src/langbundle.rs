use vstd::prelude::*;

use crate::ast;
use crate::error::Error;
use crate::message::{names_of_vars, vars_of_elems, Message};

verus! {

/// One language's parsed resource with its message headers read out.
#[derive(Debug)]
pub struct LanguageBundle {
    pub language: String,
    pub resource: ast::Resource,
    pub messages: Vec<Message>,
}

/// The message entries of a resource body, in order.
pub open spec fn message_entries(body: Seq<ast::Entry>) -> Seq<ast::Message>
    decreases body,
{
    if body.len() == 0 {
        Seq::empty()
    } else {
        message_entries(body.drop_last()) + (match body.last() {
            ast::Entry::Message(m) => seq![m],
            _ => Seq::empty(),
        })
    }
}

/// What a read message header says of its source entry: the name as
/// written and the variables in traversal order.
pub open spec fn header_matches(msg: Message, m: ast::Message) -> bool {
    &&& msg.name@ == m.id.name@
    &&& msg.attribute_name is None
    &&& (match m.value {
        Some(p) => names_of_vars(msg.vars@) == vars_of_elems(p.elements@),
        None => msg.vars@.len() == 0,
    })
    &&& (match msg.attrs {
        Some(a) => m.attributes@.len() > 0 && a@.len() == m.attributes@.len(),
        None => m.attributes@.len() == 0,
    })
}

impl LanguageBundle {
    /// Reads the message headers out of one language's parsed resource.
    #[verifier::loop_isolation(false)]
    pub fn create(language: String, resource: ast::Resource) -> (r: Result<LanguageBundle, Error>)
        ensures
            r matches Ok(lb) && lb.language@ == language@ && lb.resource == resource
                && lb.messages@.len() == message_entries(resource.body@).len() && (forall|k: int|
                0 <= k < lb.messages@.len() ==> header_matches(
                    #[trigger] lb.messages@[k],
                    message_entries(resource.body@)[k],
                )),
    {
        let mut messages: Vec<Message> = Vec::new();
        let n = resource.body.len();
        let mut i: usize = 0;
        proof {
            assert(resource.body@.subrange(0, 0) =~= Seq::<ast::Entry>::empty());
        }
        while i < n
            invariant
                i <= n,
                n == resource.body@.len(),
                messages@.len() == message_entries(resource.body@.subrange(0, i as int)).len(),
                forall|k: int|
                    0 <= k < messages@.len() ==> header_matches(
                        #[trigger] messages@[k],
                        message_entries(resource.body@.subrange(0, i as int))[k],
                    ),
            decreases n - i,
        {
            proof {
                let pre1 = resource.body@.subrange(0, i as int + 1);
                assert(pre1.drop_last() =~= resource.body@.subrange(0, i as int));
                assert(pre1.last() == resource.body@[i as int]);
            }
            let ghost oldmsgs = messages@;
            match &resource.body[i] {
                ast::Entry::Message(m) => {
                    let msg = Message::parse(m)?;
                    messages.push(msg);
                    proof {
                        let pre1m = message_entries(resource.body@.subrange(0, i as int + 1));
                        assert(pre1m.last() == *m);
                        assert forall|k: int| 0 <= k < messages@.len() implies header_matches(
                            #[trigger] messages@[k],
                            pre1m[k],
                        ) by {
                            if k < oldmsgs.len() {
                                assert(messages@[k] == oldmsgs[k]);
                                assert(pre1m[k] == message_entries(
                                    resource.body@.subrange(0, i as int),
                                )[k]);
                            }
                        }
                    }
                },
                _ => {},
            }
            i = i + 1;
        }
        proof {
            assert(resource.body@.subrange(0, n as int) =~= resource.body@);
        }
        Ok(LanguageBundle { language, resource, messages })
    }

    pub fn messages(&self) -> (r: Vec<&Message>)
        ensures
            r@.len() == self.messages@.len(),
            forall|i: int| 0 <= i < r@.len() ==> r@[i] == self.messages@[i],
    {
        let mut out: Vec<&Message> = Vec::new();
        let n = self.messages.len();
        let mut i: usize = 0;
        while i < n
            invariant
                i <= n,
                n == self.messages@.len(),
                out@.len() == i,
                forall|j: int| 0 <= j < i ==> out@[j] == self.messages@[j],
            decreases n - i,
        {
            out.push(&self.messages[i]);
            i = i + 1;
        }
        out
    }

    pub fn language(&self) -> (r: &str)
        ensures
            r@ == self.language@,
    {
        self.language.as_str()
    }

    pub fn resource(&self) -> (r: &ast::Resource)
        ensures
            r == &self.resource,
    {
        &self.resource
    }
}

} // verus!
