//! The button mapping layer: from logical button names to physical ones.
//!
//! Several logical buttons may stand for one physical button. The physical
//! button is then pressed when any of them is: the states are OR-combined.

use crate::button_map::{same_name, StrMap};
use crate::types::{is_pressed, texts, user_button_views, ButtonMap, ButtonMapping, UserButtonView};
use vstd::prelude::*;

verus! {

/// Whether the logical button `logical` is part of `buttons` and stands for
/// the physical button `physical`.
pub open spec fn maps_to(
    buttons: Map<Seq<char>, u8>,
    table: Map<Seq<char>, Seq<char>>,
    logical: Seq<char>,
    physical: Seq<char>,
) -> bool {
    buttons.contains_key(logical) && table.contains_key(logical) && table[logical] == physical
}

/// The physical button states that logical states stand for.
///
/// A physical button is part of the result when some logical button of
/// `buttons` stands for it, and it is pressed (1) when at least one of those
/// is pressed, released (0) otherwise. Logical buttons without an entry in
/// `table` have no effect.
pub open spec fn resolve(buttons: Map<Seq<char>, u8>, table: Map<Seq<char>, Seq<char>>) -> Map<
    Seq<char>,
    u8,
> {
    Map::new(
        |p: Seq<char>| exists|l: Seq<char>| maps_to(buttons, table, l, p),
        |p: Seq<char>|
            if exists|l: Seq<char>| maps_to(buttons, table, l, p) && buttons[l] == 1 {
                1u8
            } else {
                0u8
            },
    )
}

/// A physical button is pressed after resolution exactly when some pressed
/// logical button stands for it.
pub proof fn lemma_resolve_pressed(
    buttons: Map<Seq<char>, u8>,
    table: Map<Seq<char>, Seq<char>>,
    physical: Seq<char>,
)
    ensures
        is_pressed(resolve(buttons, table), physical) <==> exists|l: Seq<char>|
            maps_to(buttons, table, l, physical) && buttons[l] == 1,
{
    if exists|l: Seq<char>| maps_to(buttons, table, l, physical) && buttons[l] == 1 {
        let l = choose|l: Seq<char>| maps_to(buttons, table, l, physical) && buttons[l] == 1;
        assert(maps_to(buttons, table, l, physical));
    }
}

/// OR-combination: of two logical buttons that stand for the same physical
/// button, one pressed is enough to press it.
pub proof fn lemma_or_combination_pressed(
    buttons: Map<Seq<char>, u8>,
    table: Map<Seq<char>, Seq<char>>,
    first: Seq<char>,
    second: Seq<char>,
    physical: Seq<char>,
)
    requires
        maps_to(buttons, table, first, physical),
        maps_to(buttons, table, second, physical),
        buttons[first] == 1 || buttons[second] == 1,
    ensures
        is_pressed(resolve(buttons, table), physical),
{
    lemma_resolve_pressed(buttons, table, physical);
}

/// OR-combination: a physical button is released, and still part of the
/// result, when every logical button that stands for it is released.
pub proof fn lemma_or_combination_released(
    buttons: Map<Seq<char>, u8>,
    table: Map<Seq<char>, Seq<char>>,
    first: Seq<char>,
    second: Seq<char>,
    physical: Seq<char>,
)
    requires
        maps_to(buttons, table, first, physical),
        maps_to(buttons, table, second, physical),
        buttons[first] != 1,
        buttons[second] != 1,
        forall|l: Seq<char>| maps_to(buttons, table, l, physical) ==> l == first || l == second,
    ensures
        resolve(buttons, table).contains_key(physical),
        resolve(buttons, table)[physical] == 0,
        !is_pressed(resolve(buttons, table), physical),
{
    lemma_resolve_pressed(buttons, table, physical);
}

/// Whether the `j`-th of `names` stands for `physical`.
spec fn hit(
    names: Seq<Seq<char>>,
    table: Map<Seq<char>, Seq<char>>,
    j: int,
    physical: Seq<char>,
) -> bool {
    table.contains_key(names[j]) && table[names[j]] == physical
}

/// Whether `physical` is stood for by one of the first `i` names.
spec fn reached(
    names: Seq<Seq<char>>,
    table: Map<Seq<char>, Seq<char>>,
    i: int,
    physical: Seq<char>,
) -> bool {
    exists|j: int| 0 <= j < i && hit(names, table, j, physical)
}

/// Whether `physical` is stood for by a pressed one of the first `i` names.
spec fn reached_pressed(
    names: Seq<Seq<char>>,
    buttons: Map<Seq<char>, u8>,
    table: Map<Seq<char>, Seq<char>>,
    i: int,
    physical: Seq<char>,
) -> bool {
    exists|j: int| 0 <= j < i && hit(names, table, j, physical) && buttons[names[j]] == 1
}

/// The physical states that the first `i` names give.
spec fn resolved_prefix(
    names: Seq<Seq<char>>,
    buttons: Map<Seq<char>, u8>,
    table: Map<Seq<char>, Seq<char>>,
    i: int,
) -> Map<Seq<char>, u8> {
    Map::new(
        |p: Seq<char>| reached(names, table, i, p),
        |p: Seq<char>|
            if reached_pressed(names, buttons, table, i, p) {
                1u8
            } else {
                0u8
            },
    )
}

/// A name without an entry in the table adds nothing.
proof fn lemma_prefix_skip(
    names: Seq<Seq<char>>,
    buttons: Map<Seq<char>, u8>,
    table: Map<Seq<char>, Seq<char>>,
    i: int,
)
    requires
        0 <= i < names.len(),
        !table.contains_key(names[i]),
    ensures
        resolved_prefix(names, buttons, table, i + 1) == resolved_prefix(names, buttons, table, i),
{
    assert forall|p: Seq<char>|
        reached(names, table, i + 1, p) == reached(names, table, i, p) && reached_pressed(
            names,
            buttons,
            table,
            i + 1,
            p,
        ) == reached_pressed(names, buttons, table, i, p) by {
        if reached(names, table, i + 1, p) {
            let j = choose|j: int| 0 <= j < i + 1 && hit(names, table, j, p);
            assert(0 <= j < i && hit(names, table, j, p));
        }
        if reached_pressed(names, buttons, table, i + 1, p) {
            let j = choose|j: int|
                0 <= j < i + 1 && hit(names, table, j, p) && buttons[names[j]] == 1;
            assert(0 <= j < i && hit(names, table, j, p) && buttons[names[j]] == 1);
        }
        if reached(names, table, i, p) {
            let j = choose|j: int| 0 <= j < i && hit(names, table, j, p);
            assert(0 <= j < i + 1 && hit(names, table, j, p));
        }
        if reached_pressed(names, buttons, table, i, p) {
            let j = choose|j: int| 0 <= j < i && hit(names, table, j, p) && buttons[names[j]] == 1;
            assert(0 <= j < i + 1 && hit(names, table, j, p) && buttons[names[j]] == 1);
        }
    }
    assert(resolved_prefix(names, buttons, table, i + 1) =~= resolved_prefix(
        names,
        buttons,
        table,
        i,
    ));
}

/// A name with an entry in the table ORs its state into its physical button.
proof fn lemma_prefix_combine(
    names: Seq<Seq<char>>,
    buttons: Map<Seq<char>, u8>,
    table: Map<Seq<char>, Seq<char>>,
    i: int,
)
    requires
        0 <= i < names.len(),
        table.contains_key(names[i]),
    ensures
        ({
            let before = resolved_prefix(names, buttons, table, i);
            let target = table[names[i]];
            let held = before.contains_key(target) && before[target] == 1;
            resolved_prefix(names, buttons, table, i + 1) == before.insert(
                target,
                if held || buttons[names[i]] == 1 {
                    1u8
                } else {
                    0u8
                },
            )
        }),
{
    let before = resolved_prefix(names, buttons, table, i);
    let after = resolved_prefix(names, buttons, table, i + 1);
    let target = table[names[i]];
    let held = before.contains_key(target) && before[target] == 1;
    let combined = if held || buttons[names[i]] == 1 {
        1u8
    } else {
        0u8
    };
    assert(hit(names, table, i, target));
    assert forall|p: Seq<char>|
        reached(names, table, i + 1, p) == (reached(names, table, i, p) || p == target)
            && reached_pressed(names, buttons, table, i + 1, p) == (reached_pressed(
            names,
            buttons,
            table,
            i,
            p,
        ) || (p == target && buttons[names[i]] == 1)) by {
        if reached(names, table, i + 1, p) {
            let j = choose|j: int| 0 <= j < i + 1 && hit(names, table, j, p);
            if j < i {
                assert(reached(names, table, i, p));
            }
        }
        if reached_pressed(names, buttons, table, i + 1, p) {
            let j = choose|j: int|
                0 <= j < i + 1 && hit(names, table, j, p) && buttons[names[j]] == 1;
            if j < i {
                assert(reached_pressed(names, buttons, table, i, p));
            }
        }
        if reached(names, table, i, p) {
            let j = choose|j: int| 0 <= j < i && hit(names, table, j, p);
            assert(0 <= j < i + 1 && hit(names, table, j, p));
        }
        if reached_pressed(names, buttons, table, i, p) {
            let j = choose|j: int| 0 <= j < i && hit(names, table, j, p) && buttons[names[j]] == 1;
            assert(0 <= j < i + 1 && hit(names, table, j, p) && buttons[names[j]] == 1);
        }
        if p == target {
            assert(0 <= i < i + 1 && hit(names, table, i, p));
        }
    }
    assert(after =~= before.insert(target, combined));
}

/// Once all names are taken, the physical states are those of `resolve`.
proof fn lemma_prefix_complete(
    names: Seq<Seq<char>>,
    buttons: Map<Seq<char>, u8>,
    table: Map<Seq<char>, Seq<char>>,
)
    requires
        forall|l: Seq<char>| buttons.contains_key(l) <==> names.contains(l),
    ensures
        resolved_prefix(names, buttons, table, names.len() as int) == resolve(buttons, table),
{
    let n = names.len() as int;
    assert forall|p: Seq<char>|
        reached(names, table, n, p) == (exists|l: Seq<char>| maps_to(buttons, table, l, p))
            && reached_pressed(names, buttons, table, n, p) == (exists|l: Seq<char>|
            maps_to(buttons, table, l, p) && buttons[l] == 1) by {
        if reached(names, table, n, p) {
            let j = choose|j: int| 0 <= j < n && hit(names, table, j, p);
            assert(names.contains(names[j]));
            assert(maps_to(buttons, table, names[j], p));
        }
        if reached_pressed(names, buttons, table, n, p) {
            let j = choose|j: int| 0 <= j < n && hit(names, table, j, p) && buttons[names[j]] == 1;
            assert(names.contains(names[j]));
            assert(maps_to(buttons, table, names[j], p) && buttons[names[j]] == 1);
        }
        if exists|l: Seq<char>| maps_to(buttons, table, l, p) {
            let l = choose|l: Seq<char>| maps_to(buttons, table, l, p);
            assert(names.contains(l));
            let j = names.index_of(l);
            names.index_of_first_ensures(l);
            assert(0 <= j < n && hit(names, table, j, p));
        }
        if exists|l: Seq<char>| maps_to(buttons, table, l, p) && buttons[l] == 1 {
            let l = choose|l: Seq<char>| maps_to(buttons, table, l, p) && buttons[l] == 1;
            assert(names.contains(l));
            let j = names.index_of(l);
            names.index_of_first_ensures(l);
            assert(0 <= j < n && hit(names, table, j, p) && buttons[names[j]] == 1);
        }
    }
    assert(resolved_prefix(names, buttons, table, n) =~= resolve(buttons, table));
}

/// Applies a mapping table to logical button states.
pub fn resolve_buttons(buttons: &ButtonMap, table: &StrMap<String>) -> (r: ButtonMap)
    ensures
        r@ == resolve(buttons@, table.text()),
{
    let mut mapped: ButtonMap = StrMap::new();
    let n = buttons.len();
    let ghost names = buttons.names();
    let ghost tab = table.text();
    let mut i: usize = 0;
    assert(mapped@ =~= resolved_prefix(names, buttons@, tab, 0));
    while i < n
        invariant
            i <= n,
            n == names.len(),
            names == buttons.names(),
            tab == table.text(),
            buttons.well_formed(),
            mapped@ == resolved_prefix(names, buttons@, tab, i as int),
        decreases n - i,
    {
        if let Some((name, value)) = buttons.entry(i) {
            match table.get(name.as_str()) {
                Some(target) => {
                    let current: u8 = match mapped.get(target.as_str()) {
                        Some(v) => *v,
                        None => 0,
                    };
                    let combined: u8 = if current == 1 || *value == 1 {
                        1
                    } else {
                        0
                    };
                    proof {
                        lemma_prefix_combine(names, buttons@, tab, i as int);
                    }
                    mapped.insert(target.clone(), combined);
                },
                None => {
                    proof {
                        lemma_prefix_skip(names, buttons@, tab, i as int);
                    }
                },
            }
        }
        i = i + 1;
    }
    proof {
        lemma_prefix_complete(names, buttons@, tab);
    }
    mapped
}

/// The table of a mapping document: each logical button with the first
/// physical button it names. Lines that name no physical button have no
/// entry, and of two lines for one logical button the later one counts.
pub open spec fn mapping_table(lines: Seq<UserButtonView>) -> Map<Seq<char>, Seq<char>>
    decreases lines.len(),
{
    if lines.len() == 0 {
        Map::empty()
    } else {
        let rest = mapping_table(lines.drop_last());
        let line = lines.last();
        if line.controller_button.len() > 0 {
            rest.insert(line.user_button, line.controller_button[0])
        } else {
            rest
        }
    }
}

/// The column order of a mapping document: the logical buttons that take part
/// in sequences, in document order. Lines that name no physical button are
/// left out.
pub open spec fn mapping_order(lines: Seq<UserButtonView>) -> Seq<Seq<char>>
    decreases lines.len(),
{
    if lines.len() == 0 {
        Seq::empty()
    } else {
        let rest = mapping_order(lines.drop_last());
        let line = lines.last();
        if line.controller_button.len() > 0 && line.use_in_sequence {
            rest.push(line.user_button)
        } else {
            rest
        }
    }
}

impl ButtonMapping {
    /// The table from logical to physical button names.
    pub fn table(&self) -> (r: StrMap<String>)
        ensures
            r.text() == mapping_table(user_button_views(self.mapping@)),
    {
        let ghost lines = user_button_views(self.mapping@);
        let mut table: StrMap<String> = StrMap::new();
        let n = self.mapping.len();
        let mut i: usize = 0;
        assert(lines.subrange(0, 0) =~= Seq::<UserButtonView>::empty());
        assert(table.text() =~= Map::<Seq<char>, Seq<char>>::empty());
        while i < n
            invariant
                i <= n,
                n == self.mapping@.len(),
                lines == user_button_views(self.mapping@),
                table.text() == mapping_table(lines.subrange(0, i as int)),
            decreases n - i,
        {
            let line = &self.mapping[i];
            let ghost before = table.text();
            assert(lines.subrange(0, i + 1).drop_last() =~= lines.subrange(0, i as int));
            assert(lines.subrange(0, i + 1).last() == line@);
            if line.controller_button.len() > 0 {
                let target = line.controller_button[0].clone();
                table.insert(line.user_button.clone(), target);
                assert(table.text() =~= before.insert(line@.user_button, line@.controller_button[0]));
            }
            i = i + 1;
        }
        assert(lines.subrange(0, n as int) =~= lines);
        table
    }

    /// The logical buttons that have a column in sequence tables, in document
    /// order.
    pub fn sequence_order(&self) -> (r: Vec<String>)
        ensures
            texts(r@) == mapping_order(user_button_views(self.mapping@)),
    {
        let ghost lines = user_button_views(self.mapping@);
        let mut order: Vec<String> = Vec::new();
        let n = self.mapping.len();
        let mut i: usize = 0;
        assert(lines.subrange(0, 0) =~= Seq::<UserButtonView>::empty());
        assert(texts(order@) =~= Seq::<Seq<char>>::empty());
        while i < n
            invariant
                i <= n,
                n == self.mapping@.len(),
                lines == user_button_views(self.mapping@),
                texts(order@) == mapping_order(lines.subrange(0, i as int)),
            decreases n - i,
        {
            let line = &self.mapping[i];
            let ghost before = texts(order@);
            assert(lines.subrange(0, i + 1).drop_last() =~= lines.subrange(0, i as int));
            assert(lines.subrange(0, i + 1).last() == line@);
            if line.controller_button.len() > 0 && line.use_in_sequence {
                order.push(line.user_button.clone());
                assert(texts(order@) =~= before.push(line@.user_button));
            }
            i = i + 1;
        }
        assert(lines.subrange(0, n as int) =~= lines);
        order
    }
}

/// Whether `name` is a physical button of the device: `button1` to
/// `button12`.
pub open spec fn is_physical_button(name: Seq<char>) -> bool {
    ||| name == "button1"@
    ||| name == "button2"@
    ||| name == "button3"@
    ||| name == "button4"@
    ||| name == "button5"@
    ||| name == "button6"@
    ||| name == "button7"@
    ||| name == "button8"@
    ||| name == "button9"@
    ||| name == "button10"@
    ||| name == "button11"@
    ||| name == "button12"@
}

/// Whether `name` is a physical button of the device.
pub fn physical_button(name: &str) -> (r: bool)
    ensures
        r == is_physical_button(name@),
{
    same_name(name, "button1") || same_name(name, "button2") || same_name(name, "button3")
        || same_name(name, "button4") || same_name(name, "button5") || same_name(name, "button6")
        || same_name(name, "button7") || same_name(name, "button8") || same_name(name, "button9")
        || same_name(name, "button10") || same_name(name, "button11") || same_name(
        name,
        "button12",
    )
}

/// Whether a line of a mapping document names, as its first physical button,
/// one that the device does not have. Such a line has no effect on the device.
pub open spec fn names_unknown_button(line: UserButtonView) -> bool {
    line.controller_button.len() > 0 && !is_physical_button(line.controller_button[0])
}

/// Whether the logical button of line `i` is also that of an earlier line.
/// The earlier line is then overridden.
pub open spec fn repeats_earlier_line(lines: Seq<UserButtonView>, i: int) -> bool {
    exists|j: int| 0 <= j < i && #[trigger] lines[j].user_button == lines[i].user_button
}

/// What is questionable in a mapping document: for each line, whether it
/// names an unknown physical button and whether it repeats a logical button.
pub struct MappingReport {
    pub unknown: Vec<bool>,
    pub repeated: Vec<bool>,
}

impl ButtonMapping {
    /// Looks a mapping document over for misspelt physical buttons and for
    /// logical buttons that are given twice. The document is used as it is
    /// either way; the report is for the user.
    pub fn inspect(&self) -> (r: MappingReport)
        ensures
            r.unknown@.len() == self.mapping@.len(),
            r.repeated@.len() == self.mapping@.len(),
            forall|i: int|
                0 <= i < self.mapping@.len() ==> #[trigger] r.unknown@[i] == names_unknown_button(
                    self.mapping@[i]@,
                ),
            forall|i: int|
                0 <= i < self.mapping@.len() ==> #[trigger] r.repeated@[i] == repeats_earlier_line(
                    user_button_views(self.mapping@),
                    i,
                ),
    {
        let ghost lines = user_button_views(self.mapping@);
        let n = self.mapping.len();
        let mut unknown: Vec<bool> = Vec::new();
        let mut repeated: Vec<bool> = Vec::new();
        let mut i: usize = 0;
        while i < n
            invariant
                i <= n,
                n == self.mapping@.len(),
                lines == user_button_views(self.mapping@),
                unknown@.len() == i,
                repeated@.len() == i,
                forall|k: int|
                    0 <= k < i ==> #[trigger] unknown@[k] == names_unknown_button(
                        self.mapping@[k]@,
                    ),
                forall|k: int| 0 <= k < i ==> #[trigger] repeated@[k] == repeats_earlier_line(lines, k),
            decreases n - i,
        {
            let line = &self.mapping[i];
            let is_unknown = line.controller_button.len() > 0 && !physical_button(
                line.controller_button[0].as_str(),
            );
            let mut found = false;
            let mut j: usize = 0;
            while j < i
                invariant
                    j <= i < n,
                    n == self.mapping@.len(),
                    lines == user_button_views(self.mapping@),
                    line == &self.mapping@[i as int],
                    found == exists|k: int|
                        0 <= k < j && #[trigger] lines[k].user_button == lines[i as int].user_button,
                decreases i - j,
            {
                let same = same_name(self.mapping[j].user_button.as_str(), line.user_button.as_str());
                proof {
                    if same {
                        assert(lines[j as int].user_button == lines[i as int].user_button);
                    } else if exists|k: int|
                        0 <= k < j + 1 && #[trigger] lines[k].user_button == lines[i as int].user_button {
                        let k = choose|k: int|
                            0 <= k < j + 1 && #[trigger] lines[k].user_button
                                == lines[i as int].user_button;
                        assert(k < j);
                    }
                }
                found = found || same;
                j = j + 1;
            }
            unknown.push(is_unknown);
            repeated.push(found);
            i = i + 1;
        }
        MappingReport { unknown, repeated }
    }
}

} // verus!
