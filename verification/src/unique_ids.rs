//! The unique-id generator: answers every `Generate` request with an id made
//! of the message-id counter's decimal numeral followed by the node identity.
//! Distinct counter values give distinct ids.

use vstd::prelude::*;
use vstd::string::*;

use crate::node::{Id, Node};
use crate::protocol::Init;

verus! {

/// The digit character of `d`, for `d < 10`.
pub open spec fn digit_char(d: nat) -> char {
    if d == 0 {
        '0'
    } else if d == 1 {
        '1'
    } else if d == 2 {
        '2'
    } else if d == 3 {
        '3'
    } else if d == 4 {
        '4'
    } else if d == 5 {
        '5'
    } else if d == 6 {
        '6'
    } else if d == 7 {
        '7'
    } else if d == 8 {
        '8'
    } else {
        '9'
    }
}

/// The decimal numeral of `n`, most significant digit first.
pub open spec fn decimal_of(n: nat) -> Seq<char>
    decreases n,
{
    if n < 10 {
        seq![digit_char(n)]
    } else {
        decimal_of(n / 10).push(digit_char(n % 10))
    }
}

/// The generated id: the counter's decimal numeral followed by the node identity.
pub open spec fn generate_id(c: nat, node_id: Seq<char>) -> Seq<char> {
    decimal_of(c) + node_id
}

fn digit_str(d: usize) -> (r: &'static str)
    requires
        d < 10,
    ensures
        r@ == seq![digit_char(d as nat)],
{
    proof {
        reveal_strlit("0");
        reveal_strlit("1");
        reveal_strlit("2");
        reveal_strlit("3");
        reveal_strlit("4");
        reveal_strlit("5");
        reveal_strlit("6");
        reveal_strlit("7");
        reveal_strlit("8");
        reveal_strlit("9");
    }
    let r: &'static str = if d == 0 {
        "0"
    } else if d == 1 {
        "1"
    } else if d == 2 {
        "2"
    } else if d == 3 {
        "3"
    } else if d == 4 {
        "4"
    } else if d == 5 {
        "5"
    } else if d == 6 {
        "6"
    } else if d == 7 {
        "7"
    } else if d == 8 {
        "8"
    } else {
        "9"
    };
    proof {
        assert(r@ =~= seq![digit_char(d as nat)]);
    }
    r
}

/// Renders `n` as its decimal numeral.
pub fn usize_to_string(n: usize) -> (r: String)
    ensures
        r@ == decimal_of(n as nat),
    decreases n,
{
    let d: usize = n % 10;
    let ds = digit_str(d);
    if n < 10 {
        String::from_str(ds)
    } else {
        let prefix = usize_to_string(n / 10);
        let r = prefix.concat(ds);
        proof {
            assert(r@ =~= decimal_of(n as nat));
        }
        r
    }
}

proof fn lemma_decimal_len(n: nat)
    ensures
        decimal_of(n).len() >= 1,
        (decimal_of(n).len() == 1) <==> n < 10,
    decreases n,
{
    if n >= 10 {
        lemma_decimal_len(n / 10);
    }
}

proof fn lemma_digit_char_injective(a: nat, b: nat)
    requires
        a < 10,
        b < 10,
        digit_char(a) == digit_char(b),
    ensures
        a == b,
{
}

/// Law: distinct numbers have distinct decimal numerals.
pub proof fn lemma_decimal_injective(a: nat, b: nat)
    requires
        decimal_of(a) == decimal_of(b),
    ensures
        a == b,
    decreases a,
{
    lemma_decimal_len(a);
    lemma_decimal_len(b);
    if a < 10 && b < 10 {
        assert(decimal_of(a)[0] == digit_char(a));
        assert(decimal_of(b)[0] == digit_char(b));
        lemma_digit_char_injective(a, b);
    } else if a < 10 || b < 10 {
        assert(decimal_of(a).len() == decimal_of(b).len());
        assert(false);
    } else {
        let da = decimal_of(a / 10);
        let db = decimal_of(b / 10);
        assert(decimal_of(a) == da.push(digit_char(a % 10)));
        assert(decimal_of(b) == db.push(digit_char(b % 10)));
        assert(da =~= decimal_of(a).drop_last());
        assert(db =~= decimal_of(b).drop_last());
        assert(decimal_of(a).last() == digit_char(a % 10));
        assert(decimal_of(b).last() == digit_char(b % 10));
        lemma_digit_char_injective(a % 10, b % 10);
        lemma_decimal_injective(a / 10, b / 10);
        vstd::arithmetic::div_mod::lemma_fundamental_div_mod(a as int, 10);
        vstd::arithmetic::div_mod::lemma_fundamental_div_mod(b as int, 10);
    }
}

/// Law: ids generated by one node at distinct counter values are distinct.
pub proof fn lemma_generate_ids_distinct(c1: nat, c2: nat, node_id: Seq<char>)
    requires
        c1 != c2,
    ensures
        generate_id(c1, node_id) != generate_id(c2, node_id),
{
    if generate_id(c1, node_id) == generate_id(c2, node_id) {
        assert(generate_id(c1, node_id).len() == decimal_of(c1).len() + node_id.len());
        assert(generate_id(c2, node_id).len() == decimal_of(c2).len() + node_id.len());
        assert(decimal_of(c1).len() == decimal_of(c2).len());
        assert(decimal_of(c1) =~= generate_id(c1, node_id).subrange(
            0,
            decimal_of(c1).len() as int,
        ));
        assert(decimal_of(c2) =~= generate_id(c2, node_id).subrange(
            0,
            decimal_of(c2).len() as int,
        ));
        lemma_decimal_injective(c1, c2);
        assert(false);
    }
}

/// The unique-id payloads.
pub enum UniquePayload {
    Generate {},
    GenerateOk { id: String },
}

/// The unique-id generator node: identity, roster, message-id counter.
pub struct UniqueIdNode {
    pub id: usize,
    pub node_id: String,
    pub node_ids: Vec<String>,
}

impl Id for UniqueIdNode {
    open spec fn spec_node_id(&self) -> Seq<char> {
        self.node_id@
    }

    open spec fn spec_msg_id(&self) -> usize {
        self.id
    }

    open spec fn with_msg_id(self, m: usize) -> Self {
        UniqueIdNode { id: m, ..self }
    }

    proof fn lemma_with_own_msg_id(&self) {
    }

    fn get_node_id(&self) -> (r: String) {
        self.node_id.clone()
    }

    fn get_msg_id(&self) -> (r: usize) {
        self.id
    }

    fn increment_msg_id(&mut self) {
        self.id = self.id + 1;
    }
}

impl Node<UniquePayload> for UniqueIdNode {
    open spec fn is_init_state(init: Init, s: Self) -> bool {
        s == (UniqueIdNode { id: 1, node_id: init.node_id, node_ids: init.node_ids })
    }

    open spec fn send_bound(&self) -> nat {
        0
    }

    open spec fn handle_post(
        pre: Self,
        input: UniquePayload,
        post: Self,
        rep: Option<UniquePayload>,
        sends: Seq<(String, UniquePayload)>,
    ) -> bool {
        &&& post == pre
        &&& sends.len() == 0
        &&& match input {
            UniquePayload::Generate {  } => rep matches Some(UniquePayload::GenerateOk { id })
                && id@ == generate_id(pre.id as nat, pre.node_id@),
            UniquePayload::GenerateOk { .. } => rep is None,
        }
    }

    fn from_init_data(init: Init) -> (s: Self) {
        UniqueIdNode { id: 1, node_id: init.node_id, node_ids: init.node_ids }
    }

    fn handle(&mut self, input: UniquePayload) -> (r: (Option<UniquePayload>, Vec<
        (String, UniquePayload),
    >)) {
        match input {
            UniquePayload::Generate {  } => {
                let numeral = usize_to_string(self.id);
                let id = numeral.concat(self.node_id.as_str());
                (Some(UniquePayload::GenerateOk { id }), Vec::new())
            },
            UniquePayload::GenerateOk { .. } => (None, Vec::new()),
        }
    }
}

} // verus!
