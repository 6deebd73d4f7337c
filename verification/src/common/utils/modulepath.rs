use vstd::prelude::*;

verus! {

/// Whether `s` holds the separator `::` at `k`.
pub open spec fn sep_at(s: Seq<char>, k: int) -> bool {
    0 <= k && k + 1 < s.len() && s[k] == ':' && s[k + 1] == ':'
}

/// The first position from `from` on where `s` holds `::`, or -1.
pub open spec fn first_sep(s: Seq<char>, from: int) -> int
    decreases s.len() - from,
{
    if from < 0 || from + 1 >= s.len() {
        -1
    } else if sep_at(s, from) {
        from
    } else {
        first_sep(s, from + 1)
    }
}

/// `s` cut at each `::`, from the left: the pieces between separators.
pub open spec fn split_path(s: Seq<char>) -> Seq<Seq<char>>
    decreases s.len(),
{
    let i = first_sep(s, 0);
    if i < 0 || i + 2 > s.len() {
        seq![s]
    } else {
        seq![s.subrange(0, i)] + split_path(s.subrange(i + 2, s.len() as int))
    }
}

/// The pieces written one after another with `sep` between them.
pub open spec fn join(pieces: Seq<Seq<char>>, sep: Seq<char>) -> Seq<char>
    decreases pieces.len(),
{
    if pieces.len() == 0 {
        Seq::empty()
    } else if pieces.len() == 1 {
        pieces[0]
    } else {
        join(pieces.drop_last(), sep) + sep + pieces.last()
    }
}

proof fn lemma_first_sep_skip(s: Seq<char>, from: int, to: int)
    requires
        0 <= from <= to,
        forall|k: int| from <= k < to ==> !sep_at(s, k),
    ensures
        to + 1 < s.len() ==> first_sep(s, from) == first_sep(s, to),
        to + 1 >= s.len() ==> first_sep(s, from) == -1,
    decreases to - from,
{
    if from < to {
        lemma_first_sep_skip(s, from + 1, to);
    }
}

proof fn lemma_first_sep_range(s: Seq<char>, from: int)
    ensures
        first_sep(s, from) == -1 || (from <= first_sep(s, from) && sep_at(s, first_sep(s, from))),
    decreases s.len() - from,
{
    if !(from < 0 || from + 1 >= s.len()) && !sep_at(s, from) {
        lemma_first_sep_range(s, from + 1);
    }
}

/// The name of a module: its namespaces and its name with `::` between.
#[derive(Eq, PartialEq, Clone, Debug, Hash)]
pub struct ModulePath {
    pub path: String,
}

impl ModulePath {
    /// Puts the module inside `namespace`.
    pub fn add_namespace(&mut self, namespace: &ModulePath)
        ensures
            final(self).path@ == namespace.path@ + "::"@ + old(self).path@,
    {
        let mut p = namespace.path.clone();
        p.append("::");
        p.append(self.path.as_str());
        self.path = p;
    }

    /// The namespaces and the name, in order.
    pub fn components(&self) -> (r: Vec<String>)
        ensures
            r@.map_values(|c: String| c@) == split_path(self.path@),
    {
        let s = self.path.as_str();
        let n = s.unicode_len();
        let ghost whole = s@;
        let mut pieces: Vec<String> = Vec::new();
        let mut start: usize = 0;
        let mut i: usize = 0;
        assert(whole.subrange(0, n as int) =~= whole);
        assert(pieces@.map_values(|c: String| c@) =~= Seq::<Seq<char>>::empty());
        while i < n
            invariant
                n == whole.len(),
                s@ == whole,
                whole == self.path@,
                start <= i <= n,
                forall|k: int| start <= k < i ==> !sep_at(whole, k),
                pieces@.map_values(|c: String| c@) + split_path(whole.subrange(start as int, n as int))
                    == split_path(whole),
            decreases n - i,
        {
            if i + 1 < n && s.get_char(i) == ':' && s.get_char(i + 1) == ':' {
                let ghost rest = whole.subrange(start as int, n as int);
                proof {
                    assert forall|k: int| 0 <= k < i - start implies !sep_at(rest, k) by {
                        assert(!sep_at(whole, k + start));
                    }
                    assert(sep_at(rest, i - start));
                    lemma_first_sep_skip(rest, 0, i - start);
                    assert(rest.subrange(0, i - start) =~= whole.subrange(start as int, i as int));
                    assert(rest.subrange(i - start + 2, rest.len() as int) =~= whole.subrange(i + 2, n as int));
                }
                let piece = s.substring_char(start, i).to_string();
                let ghost old_pieces = pieces@.map_values(|c: String| c@);
                pieces.push(piece);
                assert(pieces@.map_values(|c: String| c@) =~= old_pieces.push(whole.subrange(start as int, i as int)));
                assert(old_pieces.push(whole.subrange(start as int, i as int)) + split_path(whole.subrange(i + 2, n as int))
                    =~= old_pieces + split_path(rest));
                start = i + 2;
                i = i + 2;
            } else {
                proof {
                    if i + 1 < n {
                        assert(!sep_at(whole, i as int));
                    }
                }
                i = i + 1;
            }
        }
        let ghost rest = whole.subrange(start as int, n as int);
        proof {
            assert forall|k: int| 0 <= k < rest.len() implies !sep_at(rest, k) by {
                assert(!sep_at(whole, k + start));
            }
            lemma_first_sep_skip(rest, 0, rest.len() as int);
        }
        let ghost old_pieces = pieces@.map_values(|c: String| c@);
        pieces.push(s.substring_char(start, n).to_string());
        assert(pieces@.map_values(|c: String| c@) =~= old_pieces + split_path(rest));
        pieces
    }

    /// The module of a file, from the parts of its path: the parts joined
    /// by `::`, without the `.lm` extension of the last one.
    pub fn from_path(parts: &Vec<String>) -> (r: Self)
        requires
            parts@.len() > 0,
            parts@.last()@.len() >= 3,
            parts@.last()@.subrange(parts@.last()@.len() - 3, parts@.last()@.len() as int) == ".lm"@,
        ensures
            r.path@ + ".lm"@ == join(parts@.map_values(|c: String| c@), "::"@),
    {
        let mut joined = String::new();
        let mut i: usize = 0;
        let ghost views = parts@.map_values(|c: String| c@);
        while i < parts.len()
            invariant
                i <= parts@.len(),
                views == parts@.map_values(|c: String| c@),
                joined@ == join(views.subrange(0, i as int), "::"@),
            decreases parts@.len() - i,
        {
            if i > 0 {
                joined.append("::");
            }
            joined.append(parts[i].as_str());
            proof {
                let sub = views.subrange(0, i + 1);
                assert(sub.drop_last() =~= views.subrange(0, i as int));
                assert(sub.last() == parts@[i as int]@);
                if i == 0 {
                    assert(views.subrange(0, 0 as int) =~= Seq::<Seq<char>>::empty());
                }
            }
            i = i + 1;
        }
        assert(views.subrange(0, parts@.len() as int) =~= views);
        let n = joined.as_str().unicode_len();
        proof {
            lemma_join_suffix(views, "::"@);
        }
        let stem = joined.as_str().substring_char(0, n - 3).to_string();
        assert(stem@ + ".lm"@ =~= joined@);
        ModulePath { path: stem }
    }

    pub fn from_module_path(path: &str) -> (r: Self)
        ensures
            r.path@ == path@,
    {
        ModulePath { path: path.to_string() }
    }

    /// The file of the module: its components joined by `/`, with `.lm`
    /// after them.
    pub fn to_path(&self) -> (r: String)
        ensures
            r@ == join(split_path(self.path@), "/"@) + ".lm"@,
    {
        let comps = self.components();
        let ghost views = comps@.map_values(|c: String| c@);
        let mut res = String::new();
        let mut i: usize = 0;
        while i < comps.len()
            invariant
                i <= comps@.len(),
                views == comps@.map_values(|c: String| c@),
                res@ == join(views.subrange(0, i as int), "/"@),
            decreases comps@.len() - i,
        {
            if i > 0 {
                res.append("/");
            }
            res.append(comps[i].as_str());
            proof {
                let sub = views.subrange(0, i + 1);
                assert(sub.drop_last() =~= views.subrange(0, i as int));
                if i == 0 {
                    assert(views.subrange(0, 0 as int) =~= Seq::<Seq<char>>::empty());
                }
            }
            i = i + 1;
        }
        assert(views.subrange(0, comps@.len() as int) =~= views);
        res.append(".lm");
        res
    }
}

/// Joined pieces end as the last piece ends.
proof fn lemma_join_suffix(pieces: Seq<Seq<char>>, sep: Seq<char>)
    requires
        pieces.len() > 0,
    ensures
        join(pieces, sep).len() >= pieces.last().len(),
        join(pieces, sep).subrange(join(pieces, sep).len() - pieces.last().len(), join(pieces, sep).len() as int)
            == pieces.last(),
{
    let j = join(pieces, sep);
    if pieces.len() == 1 {
        assert(j.subrange(0, j.len() as int) =~= j);
    } else {
        let a = join(pieces.drop_last(), sep) + sep;
        assert(j == a + pieces.last());
        assert(j.subrange(a.len() as int, j.len() as int) =~= pieces.last());
    }
}

/// `p` holds no `::`.
pub open spec fn no_sep(p: Seq<char>) -> bool {
    forall|k: int| !sep_at(p, k)
}

/// Joined pieces, read from the front: the first piece, the separator and
/// the rest joined.
proof fn lemma_join_front(parts: Seq<Seq<char>>, sep: Seq<char>)
    requires
        parts.len() >= 2,
    ensures
        join(parts, sep) == parts[0] + sep + join(parts.subrange(1, parts.len() as int), sep),
    decreases parts.len(),
{
    let rest = parts.subrange(1, parts.len() as int);
    if parts.len() == 2 {
        assert(parts.drop_last() =~= seq![parts[0]]);
        assert(rest =~= seq![parts[1]]);
        assert(join(parts.drop_last(), sep) == parts[0]);
    } else {
        lemma_join_front(parts.drop_last(), sep);
        assert(parts.drop_last().subrange(1, parts.len() - 1) =~= rest.drop_last());
        assert(rest.last() == parts.last());
        assert(join(parts, sep) =~= parts[0] + sep + join(rest, sep));
    }
}

/// Cutting the pieces joined by `::` at each `::` gives the pieces back,
/// when no piece holds `::` and none but the last ends with `:`.
proof fn lemma_split_join(parts: Seq<Seq<char>>)
    requires
        parts.len() > 0,
        forall|i: int| 0 <= i < parts.len() ==> no_sep(#[trigger] parts[i]),
        forall|i: int| 0 <= i < parts.len() - 1 ==> (#[trigger] parts[i]).len() == 0 || parts[i].last() != ':',
    ensures
        split_path(join(parts, "::"@)) == parts,
    decreases parts.len(),
{
    reveal_strlit("::");
    let s = join(parts, "::"@);
    if parts.len() == 1 {
        assert(s == parts[0]);
        assert(no_sep(parts[0]));
        lemma_first_sep_skip(s, 0, s.len() as int);
        assert(split_path(s) =~= seq![s]);
    } else {
        let p0 = parts[0];
        let rest = parts.subrange(1, parts.len() as int);
        lemma_join_front(parts, "::"@);
        let rs = join(rest, "::"@);
        assert(s == p0 + "::"@ + rs);
        assert(no_sep(p0));
        assert forall|k: int| 0 <= k < p0.len() implies !sep_at(s, k) by {
            if k + 1 < p0.len() {
                assert(s[k] == p0[k] && s[k + 1] == p0[k + 1]);
                assert(!sep_at(p0, k));
            } else {
                assert(s[k] == p0[k]);
                assert(p0.last() == p0[k]);
            }
        }
        assert(sep_at(s, p0.len() as int));
        lemma_first_sep_skip(s, 0, p0.len() as int);
        assert(first_sep(s, 0) == p0.len());
        assert(s.subrange(0, p0.len() as int) =~= p0);
        assert(s.subrange(p0.len() + 2int, s.len() as int) =~= rs);
        assert forall|i: int| 0 <= i < rest.len() implies no_sep(#[trigger] rest[i]) by {
            assert(rest[i] == parts[i + 1]);
        }
        assert forall|i: int| 0 <= i < rest.len() - 1 implies (#[trigger] rest[i]).len() == 0 || rest[i].last() != ':' by {
            assert(rest[i] == parts[i + 1]);
        }
        lemma_split_join(rest);
        assert(split_path(s) =~= seq![p0] + rest);
        assert(seq![p0] + rest =~= parts);
    }
}

/// Joining pieces whose last one has `tail` added is joining the pieces
/// and adding `tail`.
proof fn lemma_join_tail(parts: Seq<Seq<char>>, stem: Seq<char>, tail: Seq<char>, sep: Seq<char>)
    requires
        parts.len() > 0,
    ensures
        join(parts.update(parts.len() - 1, stem + tail), sep) == join(parts.update(parts.len() - 1, stem), sep) + tail,
{
    let a = parts.update(parts.len() - 1, stem + tail);
    let b = parts.update(parts.len() - 1, stem);
    if parts.len() > 1 {
        assert(a.drop_last() =~= b.drop_last());
    }
}

/// The module of a file maps back to the file: reading the module path
/// from the parts of a file's path and turning it into a file path gives
/// the parts joined by `/`, when no part holds `::` and none but the last
/// ends with `:`.
pub proof fn law_file_round_trip(parts: Seq<Seq<char>>, stem: Seq<char>, module: Seq<char>)
    requires
        parts.len() > 0,
        parts.last() == stem + ".lm"@,
        forall|i: int| 0 <= i < parts.len() ==> no_sep(#[trigger] parts[i]),
        forall|i: int| 0 <= i < parts.len() - 1 ==> (#[trigger] parts[i]).len() == 0 || parts[i].last() != ':',
        module + ".lm"@ == join(parts, "::"@),
    ensures
        join(split_path(module), "/"@) + ".lm"@ == join(parts, "/"@),
{
    reveal_strlit(".lm");
    let stems = parts.update(parts.len() - 1, stem);
    assert(parts =~= stems.update(stems.len() - 1, stem + ".lm"@));
    assert(stems =~= stems.update(stems.len() - 1, stem));
    lemma_join_tail(stems, stem, ".lm"@, "::"@);
    lemma_join_tail(stems, stem, ".lm"@, "/"@);
    assert(join(parts, "::"@) == join(stems, "::"@) + ".lm"@);
    assert(join(parts, "/"@) == join(stems, "/"@) + ".lm"@);
    assert(module + ".lm"@ == join(stems, "::"@) + ".lm"@);
    assert(module =~= join(stems, "::"@)) by {
        let a = module + ".lm"@;
        assert(a.subrange(0, module.len() as int) =~= module);
        assert((join(stems, "::"@) + ".lm"@).subrange(0, join(stems, "::"@).len() as int) =~= join(stems, "::"@));
    }
    assert forall|i: int| 0 <= i < stems.len() implies no_sep(#[trigger] stems[i]) by {
        if i == stems.len() - 1 {
            assert forall|k: int| !sep_at(stem, k) by {
                if sep_at(stem, k) {
                    assert(sep_at(parts.last(), k));
                    assert(no_sep(parts[parts.len() - 1]));
                }
            }
        } else {
            assert(stems[i] == parts[i]);
        }
    }
    assert forall|i: int| 0 <= i < stems.len() - 1 implies (#[trigger] stems[i]).len() == 0 || stems[i].last() != ':' by {
        assert(stems[i] == parts[i]);
    }
    lemma_split_join(stems);
}

proof fn lemma_split_len(s: Seq<char>)
    ensures
        split_path(s).len() >= 1,
    decreases s.len(),
{
    let i = first_sep(s, 0);
    if !(i < 0 || i + 2 > s.len()) {
        lemma_split_len(s.subrange(i + 2, s.len() as int));
    }
}

/// Joining the pieces of a module path with `::` gives the path back.
proof fn lemma_join_split(s: Seq<char>)
    ensures
        join(split_path(s), "::"@) == s,
    decreases s.len(),
{
    reveal_strlit("::");
    let i = first_sep(s, 0);
    if i < 0 || i + 2 > s.len() {
        assert(split_path(s) =~= seq![s]);
    } else {
        lemma_first_sep_range(s, 0);
        let rest = s.subrange(i + 2, s.len() as int);
        lemma_join_split(rest);
        lemma_split_len(rest);
        let parts = seq![s.subrange(0, i)] + split_path(rest);
        assert(split_path(s) == parts);
        lemma_join_front(parts, "::"@);
        assert(parts.subrange(1, parts.len() as int) =~= split_path(rest));
        assert(s.subrange(0, i) + "::"@ + rest =~= s);
    }
}

/// The parts of the file path of a module: its pieces, with `.lm` after
/// the last one.
pub open spec fn file_parts(module: Seq<char>) -> Seq<Seq<char>> {
    let pieces = split_path(module);
    pieces.update(pieces.len() - 1, pieces.last() + ".lm"@)
}

/// A module maps to its file and back: the file that `to_path` writes for
/// the module is its pieces with `.lm` after the last, joined by `/`; and
/// the module that `from_path` reads from those parts (a path whose text
/// with `.lm` after it is the parts joined by `::`) is the module itself.
pub proof fn law_module_round_trip(module: Seq<char>, back: Seq<char>)
    requires
        back + ".lm"@ == join(file_parts(module), "::"@),
    ensures
        join(file_parts(module), "/"@) == join(split_path(module), "/"@) + ".lm"@,
        back == module,
{
    let pieces = split_path(module);
    lemma_split_len(module);
    assert(pieces =~= pieces.update(pieces.len() - 1, pieces.last()));
    lemma_join_tail(pieces, pieces.last(), ".lm"@, "::"@);
    lemma_join_tail(pieces, pieces.last(), ".lm"@, "/"@);
    lemma_join_split(module);
    assert(back + ".lm"@ == module + ".lm"@);
    assert(back =~= module) by {
        assert((back + ".lm"@).subrange(0, back.len() as int) =~= back);
        assert((module + ".lm"@).subrange(0, module.len() as int) =~= module);
    }
}

} // verus!
