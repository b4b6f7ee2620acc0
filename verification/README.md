# strategy_ecology

Strategy-species ecology for ternary agent populations: five strategy
species (Explorer, Diplomat, Marksman, Climber, Prospector) competing under
Lotka-Volterra dynamics, with diversity, resilience, keystone-environment
and cross-domain transfer analyses.

## Layout

- `src/` is the library, verified with Verus. It holds everything that does
  not compute with floating point:
  - `species`: the species, their canonical order and indices, names and
    niche descriptions;
  - `population`: which species a population holds, its species richness
    and whether all species are present;
  - `ecology`: the perturbation schedule of the resilience test and the
    keystone scores and their stable ranking;
  - `transfer`: transfer results, the pairs of domains the full battery
    compares, and the battery's majority verdict.
- `app/` holds the floating-point side: population counts and diversity
  indices, the Lotka-Volterra model, the resilience measurements, keystone
  environments and fitness correlations. It calls the library for every
  decision listed above.
- `tests/` exercises the library.
