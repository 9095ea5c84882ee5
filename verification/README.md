# xcp_lite

Measurement and calibration registry for the ASAM XCP protocol and the A2L description of an
application, with its contracts proved by Verus.

## Layout

- `src/` the verified library
  - `registry`, `mc_*`: the registry of calibration segments, events, instances and type
    definitions, with addressing (`mc_address`), metadata (`mc_support`), value types
    (`mc_type`), identifiers (`mc_text`) and the flattening of typedef instances (`mc_typedef`)
  - `a2l_writer`, `a2l_file`: the A2L text of the registry, stated as spec functions over the
    registry and written by code proved to produce exactly that text
  - `reg`, `reg_registry`, `reg_a2l_writer`: the registry of basic measurement signals and
    calibration parameters and its A2L text
  - `xcp`, `daq_event`, `cal`, `histogram`, `counter`: events and their ids, capture buffers,
    calibration segment lists, cycle time histograms and counters
  - `daemon_config`, `process_config`: parsing of INI style configuration text
  - `idl_generator`: IDL annotation text of structures
  - `cal` keeps the list of calibration segment descriptors; the pages of a segment (working
    and default page, page switching, persistence) stay with the segment handle that the
    application provides through `CalSegTrait`, of which the library sees only the pending
    requests and the index (`CalSegState` is such a handle's request state)
  - `register`: registration of a structure, described field by field, as instances or as
    typedefs
  - `a2l_load`: loading a parsed A2L module (segments, objects, typedefs) into the registry
  - `strings`, `sorting`: text helpers, lexicographic order and a stable sort
- `tests/` tests of the library on concrete values
- `app/` what the library leaves to the application: files, clocks, locks and floating point
  values, which it hands to the library as plain values

Floating point limits and conversion factors are formatted in `app/` and reach the library as
text (`A2lLimits`, `A2lConversion`, `RegistryScaling`).
