//! Content streams: the operations that draw one page, and their encoding.

use vstd::prelude::*;
use vstd::string::StringExecFns;
use crate::backend::{
    encode_content, encoded_content, integer_object, name_object, object_model, object_models,
    operation_models, text_object,
};
use crate::error::BuildError;
use crate::layout::{Layout, CAPTION_Y, RULE_Y, TEXT_X, TITLE_Y};
use crate::model::{Node, Operation};
use crate::text::{item_line, item_text, Price};

verus! {

/// An operation without operands.
pub open spec fn bare(operator: Seq<char>) -> Operation {
    Operation { operator, operands: Seq::empty() }
}

/// The five operations that show `text` in font `F1` at the given size,
/// with the cursor set to the absolute position `(x, y)`.
pub open spec fn text_block(size: int, x: int, y: int, text: Seq<char>) -> Seq<Operation> {
    seq![
        bare("BT"@),
        Operation { operator: "Tf"@, operands: seq![Node::Name("F1"@), Node::Integer(size)] },
        Operation { operator: "Td"@, operands: seq![Node::Integer(x), Node::Integer(y)] },
        Operation { operator: "Tj"@, operands: seq![Node::Text(text)] },
        bare("ET"@),
    ]
}

/// The rule below the title: 67 hyphens.
pub open spec fn rule_text() -> Seq<char> {
    Seq::new(67, |i: int| '-')
}

/// The head of every page: the title with the subject, a rule, and the
/// caption above the items.
pub open spec fn header(subject: Seq<char>, layout: Layout) -> Seq<Operation> {
    text_block(
        layout.title_size as int,
        TEXT_X as int,
        TITLE_Y as int,
        "Fake Bill for: "@ + subject,
    )
        + text_block(layout.body_size as int, TEXT_X as int, RULE_Y as int, rule_text())
        + text_block(layout.body_size as int, TEXT_X as int, CAPTION_Y as int, "Purchases:"@)
}

/// The line of the item at `index` of its page.
pub open spec fn item_block(label: Seq<char>, price: Price, index: int, layout: Layout) -> Seq<
    Operation,
> {
    text_block(
        layout.body_size as int,
        TEXT_X as int,
        layout.line_y(index),
        item_text(label, price),
    )
}

/// The lines of the first `count` items from `start` on, one below the
/// other.
pub open spec fn item_lines(
    labels: Seq<Seq<char>>,
    prices: Seq<Price>,
    start: int,
    count: nat,
    layout: Layout,
) -> Seq<Operation>
    decreases count,
{
    if count == 0 {
        Seq::empty()
    } else {
        item_lines(labels, prices, start, (count - 1) as nat, layout) + item_block(
            labels[start + count - 1],
            prices[start + count - 1],
            count - 1,
            layout,
        )
    }
}

/// The lines of `count` items are five operations each, and those of the
/// item at `item` are its block.
pub proof fn lemma_item_lines(
    labels: Seq<Seq<char>>,
    prices: Seq<Price>,
    start: int,
    count: nat,
    layout: Layout,
    item: int,
)
    requires
        0 <= item < count,
    ensures
        item_lines(labels, prices, start, count, layout).len() == 5 * count,
        item_lines(labels, prices, start, count, layout).subrange(5 * item, 5 * item + 5)
            == item_block(labels[start + item], prices[start + item], item, layout),
    decreases count,
{
    let all = item_lines(labels, prices, start, count, layout);
    let front = item_lines(labels, prices, start, (count - 1) as nat, layout);
    let block = item_block(labels[start + count - 1], prices[start + count - 1], count - 1, layout);
    lemma_item_lines_len(labels, prices, start, (count - 1) as nat, layout);
    assert(all == front + block);
    if item == count - 1 {
        assert(all.subrange(5 * item, 5 * item + 5) =~= block);
    } else {
        lemma_item_lines(labels, prices, start, (count - 1) as nat, layout, item);
        assert(all.subrange(5 * item, 5 * item + 5) =~= front.subrange(5 * item, 5 * item + 5));
    }
}

/// The lines of `count` items are five operations each.
pub proof fn lemma_item_lines_len(
    labels: Seq<Seq<char>>,
    prices: Seq<Price>,
    start: int,
    count: nat,
    layout: Layout,
)
    ensures
        item_lines(labels, prices, start, count, layout).len() == 5 * count,
    decreases count,
{
    if count > 0 {
        lemma_item_lines_len(labels, prices, start, (count - 1) as nat, layout);
    }
}

/// The characters of each string of a list.
pub open spec fn texts(strings: Seq<String>) -> Seq<Seq<char>> {
    Seq::new(strings.len(), |i: int| strings[i]@)
}

/// An operand of a content-stream operation.
#[derive(Debug)]
pub enum Operand {
    Integer(i64),
    Name(String),
    Text(String),
}

impl Operand {
    /// The object that the operand stands for.
    pub open spec fn node(self) -> Node {
        match self {
            Operand::Integer(value) => Node::Integer(value as int),
            Operand::Name(name) => Node::Name(name@),
            Operand::Text(text) => Node::Text(text@),
        }
    }

    fn to_object(&self) -> (object: lopdf::Object)
        ensures
            object_model(object) == self.node(),
    {
        match self {
            Operand::Integer(value) => integer_object(*value),
            Operand::Name(name) => name_object(name.as_str()),
            Operand::Text(text) => text_object(text.as_str()),
        }
    }
}

/// One instruction of a content stream: an operator with its operands.
#[derive(Debug)]
pub struct Instruction {
    pub operator: String,
    pub operands: Vec<Operand>,
}

impl Instruction {
    /// The operation that the instruction stands for.
    pub open spec fn operation(self) -> Operation {
        Operation {
            operator: self.operator@,
            operands: Seq::new(self.operands@.len(), |i: int| self.operands@[i].node()),
        }
    }

    fn to_pair(&self) -> (pair: (String, Vec<lopdf::Object>))
        ensures
            pair.0@ == self.operator@,
            object_models(pair.1@) == self.operation().operands,
    {
        let mut objects: Vec<lopdf::Object> = Vec::new();
        let mut i: usize = 0;
        while i < self.operands.len()
            invariant
                i <= self.operands.len(),
                objects@.len() == i,
                forall|j: int|
                    0 <= j < i ==> object_model(#[trigger] objects@[j])
                        == self.operands@[j].node(),
            decreases self.operands.len() - i,
        {
            let object = self.operands[i].to_object();
            objects.push(object);
            i += 1;
        }
        assert(object_models(objects@) =~= self.operation().operands);
        (self.operator.clone(), objects)
    }
}

/// The operations that a list of instructions stands for, in order.
pub open spec fn operations(instructions: Seq<Instruction>) -> Seq<Operation> {
    Seq::new(instructions.len(), |i: int| instructions[i].operation())
}

/// Collects the instructions of one content stream in the order in which
/// they are to be carried out.
#[derive(Debug)]
pub struct ContentStreamBuilder {
    pub instructions: Vec<Instruction>,
}

impl View for ContentStreamBuilder {
    type V = Seq<Operation>;

    open spec fn view(&self) -> Seq<Operation> {
        operations(self.instructions@)
    }
}

impl ContentStreamBuilder {
    /// A builder without instructions.
    pub fn new() -> (builder: ContentStreamBuilder)
        ensures
            builder@ == Seq::<Operation>::empty(),
    {
        let builder = ContentStreamBuilder { instructions: Vec::new() };
        assert(builder@ =~= Seq::<Operation>::empty());
        builder
    }

    /// Appends one instruction.
    pub fn push(&mut self, operator: &str, operands: Vec<Operand>)
        ensures
            final(self)@ == old(self)@.push(
                Operation {
                    operator: operator@,
                    operands: Seq::new(operands@.len(), |i: int| operands@[i].node()),
                },
            ),
    {
        let instruction = Instruction { operator: String::from_str(operator), operands };
        self.instructions.push(instruction);
        assert(self@ =~= old(self)@.push(instruction.operation()));
    }

    /// Appends the five instructions that show `text` at `(x, y)`.
    pub fn text_block(&mut self, size: u16, x: i64, y: i64, text: String)
        ensures
            final(self)@ == old(self)@ + text_block(size as int, x as int, y as int, text@),
    {
        let ghost shown = text@;
        self.push("BT", Vec::new());
        let mut font: Vec<Operand> = Vec::new();
        font.push(Operand::Name(String::from_str("F1")));
        font.push(Operand::Integer(size as i64));
        self.push("Tf", font);
        let mut cursor: Vec<Operand> = Vec::new();
        cursor.push(Operand::Integer(x));
        cursor.push(Operand::Integer(y));
        self.push("Td", cursor);
        let mut show: Vec<Operand> = Vec::new();
        show.push(Operand::Text(text));
        self.push("Tj", show);
        self.push("ET", Vec::new());
        proof {
            let block = text_block(size as int, x as int, y as int, shown);
            let now = self@;
            let before = old(self)@;
            let n = before.len() as int;
            assert(now.len() == n + 5);
            assert(now[n].operands =~= block[0].operands);
            assert(now[n + 1].operands =~= block[1].operands);
            assert(now[n + 2].operands =~= block[2].operands);
            assert(now[n + 3].operands =~= block[3].operands);
            assert(now[n + 4].operands =~= block[4].operands);
            assert(now =~= before + block);
        }
    }

    /// Appends the head of a page.
    pub fn header(&mut self, subject: &str, layout: &Layout)
        ensures
            final(self)@ == old(self)@ + header(subject@, *layout),
    {
        proof {
            reveal_strlit("-------------------------------------------------------------------");
        }
        let mut title = String::from_str("Fake Bill for: ");
        title.append(subject);
        self.text_block(layout.title_size, TEXT_X, TITLE_Y, title);
        let rule = String::from_str(
            "-------------------------------------------------------------------",
        );
        assert(rule@ =~= rule_text());
        self.text_block(layout.body_size, TEXT_X, RULE_Y, rule);
        self.text_block(layout.body_size, TEXT_X, CAPTION_Y, String::from_str("Purchases:"));
        assert(self@ =~= old(self)@ + header(subject@, *layout));
    }

    /// Appends the lines of the items from `start` up to `end`, the first
    /// one line below the caption.
    pub fn item_lines(
        &mut self,
        labels: &Vec<String>,
        prices: &Vec<Price>,
        start: usize,
        end: usize,
        layout: &Layout,
    )
        requires
            start <= end <= labels.len(),
            end <= prices.len(),
            end - start <= u32::MAX,
        ensures
            final(self)@ == old(self)@ + item_lines(
                texts(labels@),
                prices@,
                start as int,
                (end - start) as nat,
                *layout,
            ),
    {
        let mut i: usize = start;
        let mut y: i64 = CAPTION_Y;
        assert(self@ =~= old(self)@ + item_lines(
            texts(labels@),
            prices@,
            start as int,
            0,
            *layout,
        ));
        while i < end
            invariant
                start <= i <= end <= labels.len(),
                end <= prices.len(),
                end - start <= u32::MAX,
                y == CAPTION_Y - layout.line_height * (i - start),
                self@ == old(self)@ + item_lines(
                    texts(labels@),
                    prices@,
                    start as int,
                    (i - start) as nat,
                    *layout,
                ),
            decreases end - i,
        {
            assert(layout.line_height * (i - start) <= 0xffff * 0xffff_ffff) by (nonlinear_arith)
                requires
                    0 <= layout.line_height <= 0xffff,
                    0 <= i - start <= 0xffff_ffff,
            ;
            assert(layout.line_height * (i - start + 1) == layout.line_height * (i - start)
                + layout.line_height) by (nonlinear_arith);
            y = y - (layout.line_height as i64);
            let ghost before = self@;
            let line = item_line(labels[i].as_str(), prices[i]);
            self.text_block(layout.body_size, TEXT_X, y, line);
            proof {
                let done = item_lines(
                    texts(labels@),
                    prices@,
                    start as int,
                    (i - start) as nat,
                    *layout,
                );
                let block = item_block(
                    texts(labels@)[i as int],
                    prices@[i as int],
                    i - start,
                    *layout,
                );
                assert(self@ == before + block);
                assert(before + block =~= old(self)@ + (done + block));
            }
            i += 1;
        }
    }

    /// Encodes the instructions into the bytes of a content stream, or
    /// fails where they cannot be encoded.
    pub fn encode(&self) -> (result: Result<Vec<u8>, BuildError>)
        ensures
            match result {
                Ok(bytes) => encoded_content(self@) == Some(bytes@),
                Err(error) => error == BuildError::Encoding && encoded_content(self@) is None,
            },
    {
        let mut pairs: Vec<(String, Vec<lopdf::Object>)> = Vec::new();
        let mut i: usize = 0;
        while i < self.instructions.len()
            invariant
                i <= self.instructions.len(),
                pairs@.len() == i,
                forall|j: int|
                    0 <= j < i ==> (#[trigger] pairs@[j]).0@ == self.instructions@[j].operator@
                        && object_models(pairs@[j].1@)
                        == self.instructions@[j].operation().operands,
            decreases self.instructions.len() - i,
        {
            let pair = self.instructions[i].to_pair();
            pairs.push(pair);
            i += 1;
        }
        assert(operation_models(pairs@) =~= self@);
        match encode_content(pairs) {
            Ok(bytes) => Ok(bytes),
            Err(_) => Err(BuildError::Encoding),
        }
    }
}

} // verus!
