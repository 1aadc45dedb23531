# lwsim

The effect system of a damage simulator for a bullet-hell card game, as a Verus library.

- `src/effects.rs`: the level tables of the three effect families (base stats, combat
  stats, barrier anomalies), the per-character and per-battle states built from them, and
  how an effect changes them.
- `src/laws.rs`: what every change keeps (levels within `[-10, 10]`, anomalies under their
  shared cap) and the lemmas on table totals behind it.
- `src/lib.rs`: the effect kinds, skill positions and skill targeting.
- `app/`: the float-valued part (chances, stat multipliers, damage distributions), the
  JSON input and the drawing calls of the web front end.
