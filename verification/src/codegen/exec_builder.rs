use vstd::prelude::*;
use crate::codegen::encoder::{LMEByteEncoder, le_bytes, lemma_le_bytes_len, push_u64_le};
use crate::codegen::instructions::Instruction;
use crate::common::utils::labels::LabelTable;

verus! {

/// An instruction, or a call to a label resolved when the code is built.
#[derive(Debug)]
pub enum PseudoInstruction {
    Instruction(Instruction),
    Call(String),
}

/// The number of bytes a pseudo instruction takes: a call is its opcode
/// and an eight-byte address.
pub open spec fn pseudo_len(p: PseudoInstruction) -> nat {
    match p {
        PseudoInstruction::Instruction(i) => i.encoding().len(),
        PseudoInstruction::Call(_) => 9,
    }
}

/// The number of bytes of the code.
pub open spec fn code_len(ps: Seq<PseudoInstruction>) -> nat
    decreases ps.len(),
{
    if ps.len() == 0 {
        0
    } else {
        code_len(ps.drop_last()) + pseudo_len(ps.last())
    }
}

/// The message for a call to a label that was never declared.
pub open spec fn unknown_label_message(name: Seq<char>) -> Seq<char> {
    "Unknown label: "@ + name
}

/// The bytes of the code, each call written as opcode 5 and the label's
/// offset in eight bytes, least significant first; or the message for the
/// first call to an undeclared label.
pub open spec fn assemble_spec(ps: Seq<PseudoInstruction>, labels: Map<Seq<char>, u64>) -> Result<Seq<u8>, Seq<char>>
    decreases ps.len(),
{
    if ps.len() == 0 {
        Ok(Seq::empty())
    } else {
        match assemble_spec(ps.drop_last(), labels) {
            Err(e) => Err(e),
            Ok(b) => match ps.last() {
                PseudoInstruction::Instruction(i) => Ok(b + i.encoding()),
                PseudoInstruction::Call(c) => if labels.contains_key(c@) {
                    Ok(b + seq![5u8] + le_bytes(labels[c@] as nat, 8))
                } else {
                    Err(unknown_label_message(c@))
                },
            },
        }
    }
}

/// A built executable: where it starts, where each function starts, and
/// its code.
pub struct ExecImage {
    pub code_entry: u64,
    pub functions: Vec<(String, u64)>,
    pub code: Vec<u8>,
}

/// Builds executable code, keeping the byte offset of the code so far so
/// that labels and the entry point can be declared at it.
pub struct ExecBuilder {
    functions: LabelTable<u64>,
    code: Vec<PseudoInstruction>,
    entry: u64,
    offset: u64,
}

impl ExecBuilder {
    pub closed spec fn code_spec(&self) -> Seq<PseudoInstruction> {
        self.code@
    }

    pub closed spec fn labels_spec(&self) -> Map<Seq<char>, u64> {
        self.functions.view()
    }

    pub closed spec fn label_names(&self) -> Seq<Seq<char>> {
        self.functions.names()
    }

    pub closed spec fn entry_spec(&self) -> u64 {
        self.entry
    }

    pub closed spec fn offset_spec(&self) -> u64 {
        self.offset
    }

    /// The offset is the length of the code so far.
    pub closed spec fn wf(&self) -> bool {
        self.functions.wf() && self.offset == code_len(self.code@)
    }

    pub fn new() -> (r: Self)
        ensures
            r.wf(),
            r.code_spec() == Seq::<PseudoInstruction>::empty(),
            r.labels_spec() == Map::<Seq<char>, u64>::empty(),
            r.label_names() == Seq::<Seq<char>>::empty(),
            r.entry_spec() == 0,
            r.offset_spec() == 0,
    {
        ExecBuilder { functions: LabelTable::new(), code: Vec::new(), entry: 0, offset: 0 }
    }

    /// Makes the current offset the entry point.
    pub fn decl_entry(&mut self) -> (r: &mut Self)
        requires
            old(self).wf(),
        ensures
            r.wf(),
            r.entry_spec() == old(self).offset_spec(),
            r.code_spec() == old(self).code_spec(),
            r.labels_spec() == old(self).labels_spec(),
            r.label_names() == old(self).label_names(),
            r.offset_spec() == old(self).offset_spec(),
            *final(self) == *final(r),
    {
        self.entry = self.offset;
        self
    }

    /// Declares the label `name` at the current offset; a label declared
    /// again moves.
    pub fn decl_label(&mut self, name: String) -> (r: &mut Self)
        requires
            old(self).wf(),
        ensures
            r.wf(),
            r.labels_spec() == old(self).labels_spec().insert(name@, old(self).offset_spec()),
            r.label_names() == (if old(self).labels_spec().contains_key(name@) {
                old(self).label_names()
            } else {
                old(self).label_names().push(name@)
            }),
            r.code_spec() == old(self).code_spec(),
            r.entry_spec() == old(self).entry_spec(),
            r.offset_spec() == old(self).offset_spec(),
            *final(self) == *final(r),
    {
        self.functions.insert(name, self.offset);
        self
    }

    /// Appends a call to the label `func`.
    pub fn call(&mut self, func: &str) -> (r: &mut Self)
        requires
            old(self).wf(),
            old(self).offset_spec() + 9 <= u64::MAX,
        ensures
            r.wf(),
            r.code_spec().len() == old(self).code_spec().len() + 1,
            r.code_spec().drop_last() == old(self).code_spec(),
            r.code_spec().last() matches PseudoInstruction::Call(c) && c@ == func@,
            r.offset_spec() == old(self).offset_spec() + 9,
            r.labels_spec() == old(self).labels_spec(),
            r.label_names() == old(self).label_names(),
            r.entry_spec() == old(self).entry_spec(),
            *final(self) == *final(r),
    {
        self.code.push(PseudoInstruction::Call(func.to_string()));
        assert(self.code@.drop_last() =~= old(self).code@);
        self.offset = self.offset + 9;
        self
    }

    /// Appends an instruction.
    pub fn emit(&mut self, i: Instruction) -> (r: &mut Self)
        requires
            old(self).wf(),
            old(self).offset_spec() + i.encoding().len() <= u64::MAX,
        ensures
            r.wf(),
            r.code_spec() == old(self).code_spec().push(PseudoInstruction::Instruction(i)),
            r.offset_spec() == old(self).offset_spec() + i.encoding().len(),
            r.labels_spec() == old(self).labels_spec(),
            r.label_names() == old(self).label_names(),
            r.entry_spec() == old(self).entry_spec(),
            *final(self) == *final(r),
    {
        let len = i.byte_length();
        self.offset = self.offset + len;
        self.code.push(PseudoInstruction::Instruction(i));
        assert(self.code@.drop_last() =~= old(self).code@);
        self
    }

    /// The executable: the entry point, the labels in the order they were
    /// first declared with their offsets, and the code; or the message for
    /// the first call to an undeclared label.
    pub fn build(self) -> (r: Result<ExecImage, String>)
        requires
            self.wf(),
        ensures
            match assemble_spec(self.code_spec(), self.labels_spec()) {
                Ok(b) => r matches Ok(img) && img.code@ == b && img.code_entry == self.entry_spec()
                    && img.functions@.len() == self.label_names().len()
                    && forall|k: int| 0 <= k < img.functions@.len() ==> (#[trigger] img.functions@[k]).0@
                        == self.label_names()[k] && img.functions@[k].1 == self.labels_spec()[self.label_names()[k]],
                Err(e) => r matches Err(m) && m@ == e,
            },
    {
        let ghost ps = self.code@;
        let ghost labels = self.functions.view();
        let mut bytes: Vec<u8> = Vec::new();
        let mut k: usize = 0;
        proof {
            reveal_strlit("Unknown label: ");
        }
        assert(ps.take(0) =~= Seq::<PseudoInstruction>::empty());
        while k < self.code.len()
            invariant
                ps == self.code@,
                labels == self.functions.view(),
                self.functions.wf(),
                k <= ps.len(),
                assemble_spec(ps.take(k as int), labels) == Ok::<Seq<u8>, Seq<char>>(bytes@),
            decreases ps.len() - k,
        {
            assert(ps.take(k + 1).drop_last() =~= ps.take(k as int));
            assert(ps.take(k + 1).last() == ps[k as int]);
            match &self.code[k] {
                PseudoInstruction::Instruction(i) => {
                    i.encode(&mut bytes);
                },
                PseudoInstruction::Call(c) => {
                    match self.functions.get(c.as_str()) {
                        Some(offset) => {
                            bytes.push(5);
                            push_u64_le(&mut bytes, offset);
                            assert(bytes@ =~= assemble_spec(ps.take(k as int), labels)->Ok_0 + seq![5u8] + le_bytes(
                                offset as nat,
                                8,
                            ));
                        },
                        None => {
                            let mut m = String::from_str("Unknown label: ");
                            m.append(c.as_str());
                            proof {
                                lemma_assemble_err_stays(ps, labels, k as int + 1);
                            }
                            return Err(m);
                        },
                    }
                },
            }
            k = k + 1;
        }
        assert(ps.take(ps.len() as int) =~= ps);
        let entries = self.functions.entries();
        let mut functions: Vec<(String, u64)> = Vec::new();
        let mut j: usize = 0;
        while j < entries.len()
            invariant
                j <= entries@.len(),
                entries@.len() == self.functions.names().len(),
                forall|i: int| 0 <= i < entries@.len() ==> #[trigger] entries@[i].0@ == self.functions.names()[i]
                    && self.functions.view().contains_key(entries@[i].0@)
                    && self.functions.view()[entries@[i].0@] == entries@[i].1,
                functions@.len() == j,
                forall|i: int| 0 <= i < j ==> (#[trigger] functions@[i]).0@ == self.functions.names()[i]
                    && functions@[i].1 == self.functions.view()[self.functions.names()[i]],
            decreases entries@.len() - j,
        {
            let e = &entries[j];
            functions.push((e.0.clone(), e.1));
            j = j + 1;
        }
        Ok(ExecImage { code_entry: self.entry, functions, code: bytes })
    }
}

/// Once a prefix of the code fails to assemble, every longer prefix fails
/// with the same message.
proof fn lemma_assemble_err_stays(ps: Seq<PseudoInstruction>, labels: Map<Seq<char>, u64>, k: int)
    requires
        0 <= k <= ps.len(),
        assemble_spec(ps.take(k), labels) is Err,
    ensures
        assemble_spec(ps, labels) == assemble_spec(ps.take(k), labels),
    decreases ps.len() - k,
{
    if k < ps.len() {
        assert(ps.take(k + 1).drop_last() =~= ps.take(k));
        lemma_assemble_err_stays(ps, labels, k + 1);
    } else {
        assert(ps.take(k) =~= ps);
    }
}

/// The assembled code is exactly as long as the offsets the builder keeps
/// say: every label and the entry point name a position in it.
pub proof fn law_assembled_length(ps: Seq<PseudoInstruction>, labels: Map<Seq<char>, u64>)
    ensures
        assemble_spec(ps, labels) is Ok ==> assemble_spec(ps, labels)->Ok_0.len() == code_len(ps),
    decreases ps.len(),
{
    if ps.len() > 0 {
        law_assembled_length(ps.drop_last(), labels);
        match ps.last() {
            PseudoInstruction::Call(c) => {
                if labels.contains_key(c@) {
                    lemma_le_bytes_len(labels[c@] as nat, 8);
                }
            },
            _ => {},
        }
    }
}

} // verus!
