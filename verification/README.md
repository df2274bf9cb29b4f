# product_discount

Discount decisions for Shopify discount functions, verified with Verus.

`src/` is the library; every function in it is verified against its contract.

- `input`, `output`: the cart and discount node a product discount reads, and
  the discounts it returns.
- `volume`: ten percent off lines of one listed variant with two or more items.
- `listed`: ten percent off lines of five or more items of a variant that the
  metafield configuration lists.
- `tiered`: for each configured node, the discount of the last quantity tier
  that a line reaches.
- `single`: a configured percentage off one configured variant from a
  configured quantity on.
- `order`, `rules`, `conditions`: the order discounts, which pick for each
  rule (or each product's conditions) the line and the discount that apply.
- `gid`, `number`, `text`, `json`: reading the number at the end of a global
  id, and reading JSON values.

Amounts that are floats are carried by their bit patterns; the float
arithmetic (line costs, percentages and totals) and the JSON input and output
live in `app/`, which runs one of the functions on standard input and output.
